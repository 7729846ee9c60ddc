//! Profile data and its rendering into the tunneling client's INI text.
use vstd::prelude::*;
use vstd::string::StringExecFns;

verus! {

/// Connection settings shared by every endpoint of one profile.
#[derive(Debug, Clone)]
pub struct CommonConfig {
    pub server_addr: String,
    pub server_port: u16,
    pub tls_enable: bool,
    pub user: String,
    pub token: String,
}

/// One local service exposed through the tunnel.
#[derive(Debug, Clone)]
pub struct ProxyNode {
    pub name: String,
    pub proxy_type: String,
    pub local_ip: String,
    pub local_port: u16,
    pub remote_port: Option<u16>,
    pub custom_domains: Option<String>,
    pub subdomain: Option<String>,
    pub use_encryption: Option<bool>,
    pub use_compression: Option<bool>,
}

/// A server profile: its identity, connection settings and endpoints.
#[derive(Debug, Clone)]
pub struct ServerConfig {
    pub id: String,
    pub name: String,
    pub common: CommonConfig,
    pub nodes: Vec<ProxyNode>,
    pub status: Option<String>,
    pub pid: Option<u32>,
}

/// Everything the panel persists: the client binary and the profiles.
#[derive(Debug, Clone)]
pub struct AppConfig {
    pub frpc_path: String,
    pub servers: Vec<ServerConfig>,
}

/// The client binary proposed before any configuration was saved.
pub const DEFAULT_FRPC_PATH: &'static str = "/Volumes/SSD4T/dev/ChmlFrp/frpc";

impl AppConfig {
    /// The configuration used when none has been stored yet.
    pub fn initial() -> (r: AppConfig)
        ensures
            r.frpc_path@ == DEFAULT_FRPC_PATH@,
            r.servers@.len() == 0,
    {
        AppConfig { frpc_path: String::from_str(DEFAULT_FRPC_PATH), servers: Vec::new() }
    }
}

/// The text of one decimal digit.
pub open spec fn digit_text(d: nat) -> Seq<char> {
    if d == 0 {
        "0"@
    } else if d == 1 {
        "1"@
    } else if d == 2 {
        "2"@
    } else if d == 3 {
        "3"@
    } else if d == 4 {
        "4"@
    } else if d == 5 {
        "5"@
    } else if d == 6 {
        "6"@
    } else if d == 7 {
        "7"@
    } else if d == 8 {
        "8"@
    } else {
        "9"@
    }
}

/// The decimal notation of `n`, without leading zeros.
pub open spec fn decimal(n: nat) -> Seq<char>
    decreases n,
{
    if n < 10 {
        digit_text(n)
    } else {
        decimal(n / 10) + digit_text(n % 10)
    }
}

pub open spec fn bool_text(b: bool) -> Seq<char> {
    if b {
        "true"@
    } else {
        "false"@
    }
}

/// One `key = value` line.
pub open spec fn line(key: Seq<char>, value: Seq<char>) -> Seq<char> {
    key + " = "@ + value + "\n"@
}

/// The line for an optional value: nothing at all when it is absent.
pub open spec fn opt_line(key: Seq<char>, value: Option<Seq<char>>) -> Seq<char> {
    match value {
        Some(v) => line(key, v),
        None => Seq::empty(),
    }
}

pub open spec fn opt_port_text(p: Option<u16>) -> Option<Seq<char>> {
    match p {
        Some(v) => Some(decimal(v as nat)),
        None => None,
    }
}

pub open spec fn opt_string_text(s: Option<String>) -> Option<Seq<char>> {
    match s {
        Some(v) => Some(v@),
        None => None,
    }
}

/// The text of an optional string field that is written: an absent or
/// empty value writes nothing, so no line ever has an empty value.
pub open spec fn opt_nonempty_text(s: Option<String>) -> Option<Seq<char>> {
    match s {
        Some(v) => if v@.len() == 0 {
            None
        } else {
            Some(v@)
        },
        None => None,
    }
}

pub open spec fn opt_bool_text(b: Option<bool>) -> Option<Seq<char>> {
    match b {
        Some(v) => Some(bool_text(v)),
        None => None,
    }
}

/// The `[common]` section, closed by an empty line.
pub open spec fn common_section(c: CommonConfig) -> Seq<char> {
    "[common]\n"@ + line("server_addr"@, c.server_addr@) + line(
        "server_port"@,
        decimal(c.server_port as nat),
    ) + line("tls_enable"@, bool_text(c.tls_enable)) + line("user"@, c.user@) + line(
        "token"@,
        c.token@,
    ) + "\n"@
}

/// The lines of an endpoint's section that are always written.
pub open spec fn node_head(n: ProxyNode) -> Seq<char> {
    "["@ + n.name@ + "]\n"@ + line("type"@, n.proxy_type@) + line("local_ip"@, n.local_ip@) + line(
        "local_port"@,
        decimal(n.local_port as nat),
    )
}

/// The lines of an endpoint's section for its optional fields, in order.
pub open spec fn node_options(n: ProxyNode) -> Seq<char> {
    opt_line("remote_port"@, opt_port_text(n.remote_port)) + opt_line(
        "custom_domains"@,
        opt_nonempty_text(n.custom_domains),
    ) + opt_line("subdomain"@, opt_nonempty_text(n.subdomain)) + opt_line(
        "use_encryption"@,
        opt_bool_text(n.use_encryption),
    ) + opt_line("use_compression"@, opt_bool_text(n.use_compression))
}

/// An endpoint's section, named after the endpoint and closed by an empty line.
pub open spec fn node_section(n: ProxyNode) -> Seq<char> {
    node_head(n) + node_options(n) + "\n"@
}

/// The sections of the endpoints, in list order.
pub open spec fn nodes_text(nodes: Seq<ProxyNode>) -> Seq<char>
    decreases nodes.len(),
{
    if nodes.len() == 0 {
        Seq::empty()
    } else {
        nodes_text(nodes.drop_last()) + node_section(nodes.last())
    }
}

/// The whole INI text of a profile.
pub open spec fn ini_text(s: ServerConfig) -> Seq<char> {
    common_section(s.common) + nodes_text(s.nodes@)
}

fn digit_str(d: u16) -> (r: &'static str)
    requires
        d < 10,
    ensures
        r@ == digit_text(d as nat),
{
    if d == 0 {
        "0"
    } else if d == 1 {
        "1"
    } else if d == 2 {
        "2"
    } else if d == 3 {
        "3"
    } else if d == 4 {
        "4"
    } else if d == 5 {
        "5"
    } else if d == 6 {
        "6"
    } else if d == 7 {
        "7"
    } else if d == 8 {
        "8"
    } else {
        "9"
    }
}

/// Appends the decimal notation of `n`.
pub fn push_decimal(out: &mut String, n: u16)
    ensures
        final(out)@ == old(out)@ + decimal(n as nat),
    decreases n,
{
    if n < 10 {
        out.append(digit_str(n));
    } else {
        push_decimal(out, n / 10);
        out.append(digit_str(n % 10));
        assert(final(out)@ =~= old(out)@ + decimal(n as nat));
    }
}

fn push_bool(out: &mut String, b: bool)
    ensures
        final(out)@ == old(out)@ + bool_text(b),
{
    if b {
        out.append("true");
    } else {
        out.append("false");
    }
}

/// Appends `key = ` to `out`.
fn push_key(out: &mut String, key: &str)
    ensures
        final(out)@ == old(out)@ + key@ + " = "@,
{
    out.append(key);
    out.append(" = ");
}

fn push_str_line(out: &mut String, key: &str, value: &str)
    ensures
        final(out)@ =~= old(out)@ + line(key@, value@),
{
    push_key(out, key);
    out.append(value);
    out.append("\n");
}

fn push_port_line(out: &mut String, key: &str, value: u16)
    ensures
        final(out)@ =~= old(out)@ + line(key@, decimal(value as nat)),
{
    push_key(out, key);
    push_decimal(out, value);
    out.append("\n");
}

fn push_bool_line(out: &mut String, key: &str, value: bool)
    ensures
        final(out)@ =~= old(out)@ + line(key@, bool_text(value)),
{
    push_key(out, key);
    push_bool(out, value);
    out.append("\n");
}

fn push_common(out: &mut String, c: &CommonConfig)
    ensures
        final(out)@ =~= old(out)@ + common_section(*c),
{
    out.append("[common]\n");
    push_str_line(out, "server_addr", c.server_addr.as_str());
    push_port_line(out, "server_port", c.server_port);
    push_bool_line(out, "tls_enable", c.tls_enable);
    push_str_line(out, "user", c.user.as_str());
    push_str_line(out, "token", c.token.as_str());
    out.append("\n");
}

fn push_opt_port(out: &mut String, key: &str, value: Option<u16>)
    ensures
        final(out)@ =~= old(out)@ + opt_line(key@, opt_port_text(value)),
{
    match value {
        Some(v) => push_port_line(out, key, v),
        None => {},
    }
}

fn push_opt_str(out: &mut String, key: &str, value: &Option<String>)
    ensures
        final(out)@ =~= old(out)@ + opt_line(key@, opt_nonempty_text(*value)),
{
    match value {
        Some(v) => {
            if !v.as_str().is_empty() {
                push_str_line(out, key, v.as_str());
            }
        },
        None => {},
    }
}

fn push_opt_bool(out: &mut String, key: &str, value: Option<bool>)
    ensures
        final(out)@ =~= old(out)@ + opt_line(key@, opt_bool_text(value)),
{
    match value {
        Some(v) => push_bool_line(out, key, v),
        None => {},
    }
}

fn push_node_head(out: &mut String, n: &ProxyNode)
    ensures
        final(out)@ =~= old(out)@ + node_head(*n),
{
    out.append("[");
    out.append(n.name.as_str());
    out.append("]\n");
    push_str_line(out, "type", n.proxy_type.as_str());
    push_str_line(out, "local_ip", n.local_ip.as_str());
    push_port_line(out, "local_port", n.local_port);
}

fn push_node_options(out: &mut String, n: &ProxyNode)
    ensures
        final(out)@ =~= old(out)@ + node_options(*n),
{
    push_opt_port(out, "remote_port", n.remote_port);
    push_opt_str(out, "custom_domains", &n.custom_domains);
    push_opt_str(out, "subdomain", &n.subdomain);
    push_opt_bool(out, "use_encryption", n.use_encryption);
    push_opt_bool(out, "use_compression", n.use_compression);
}

fn push_node(out: &mut String, n: &ProxyNode)
    ensures
        final(out)@ =~= old(out)@ + node_section(*n),
{
    push_node_head(out, n);
    push_node_options(out, n);
    out.append("\n");
}

/// Renders a profile into the client's INI text: the `[common]` section, then
/// one section per endpoint in list order, each optional field written only
/// when present.
pub fn render_ini(server: &ServerConfig) -> (r: String)
    ensures
        r@ == ini_text(*server),
{
    let mut content = String::new();
    push_common(&mut content, &server.common);
    let ghost start = content@;
    let mut i: usize = 0;
    while i < server.nodes.len()
        invariant
            i <= server.nodes@.len(),
            start == common_section(server.common),
            content@ == start + nodes_text(server.nodes@.subrange(0, i as int)),
        decreases server.nodes@.len() - i,
    {
        let ghost prev = content@;
        push_node(&mut content, &server.nodes[i]);
        proof {
            let s = server.nodes@.subrange(0, i + 1);
            assert(s.drop_last() =~= server.nodes@.subrange(0, i as int));
            assert(s.last() == server.nodes@[i as int]);
            assert(content@ =~= start + nodes_text(s));
        }
        i = i + 1;
    }
    assert(server.nodes@.subrange(0, i as int) =~= server.nodes@);
    content
}

} // verus!
