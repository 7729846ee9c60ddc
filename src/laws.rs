//! Laws that relate the library's operations, proved over their contracts.
use crate::config::{
    bool_text, common_section, decimal, ini_text, line, node_head, node_options, node_section, nodes_text,
    opt_bool_text, opt_line, opt_port_text, opt_nonempty_text, ProxyNode, ServerConfig,
};
use crate::status::{exited_view, idle_view};
use crate::supervisor::stopped;
use crate::table::{claimed, is_running_in, status_report, status_table, SlotState};
use vstd::prelude::*;

verus! {

/// Of two starts on one id, at most one claims it: after a claim succeeds
/// the id is held, so the next claim fails and changes nothing. Where the
/// id was absent, the first succeeds.
pub proof fn lemma_single_start_wins(m: Map<Seq<char>, SlotState>, id: Seq<char>)
    ensures
        claimed(m, id).contains_key(id),
        claimed(claimed(m, id), id) == claimed(m, id),
        !(!m.contains_key(id) && !claimed(m, id).contains_key(id)),
        !m.contains_key(id) ==> claimed(m, id) == m.insert(id, SlotState::Starting),
{
}

/// A process that exited on its own is reaped by the next status request,
/// which reports it as not running; a start for the same id then claims it.
pub proof fn lemma_reap_then_start(m: Map<Seq<char>, SlotState>, id: Seq<char>, pid: u32)
    requires
        m.get(id) == Some(SlotState::Running(pid)),
    ensures
        status_report(m, id, Ok(true)) == Ok::<_, crate::status::SupervisorError>(exited_view()),
        !status_table(m, id, Ok(true)).contains_key(id),
        claimed(status_table(m, id, Ok(true)), id) == status_table(m, id, Ok(true)).insert(
            id,
            SlotState::Starting,
        ),
{
}

/// A stop of a running id removes it from the table, and a status request
/// right after reports it as not running, whatever a probe would say.
pub proof fn lemma_stop_then_status(
    m: Map<Seq<char>, SlotState>,
    id: Seq<char>,
    probe: Result<bool, String>,
)
    requires
        is_running_in(m, id),
    ensures
        !stopped(m, id).contains_key(id),
        status_report(stopped(m, id), id, probe) == Ok::<_, crate::status::SupervisorError>(
            idle_view(),
        ),
        status_table(stopped(m, id), id, probe) == stopped(m, id),
{
}

/// The sections of a list of endpoints are those of its parts, in order.
pub proof fn lemma_sections_concat(a: Seq<ProxyNode>, b: Seq<ProxyNode>)
    ensures
        nodes_text(a + b) == nodes_text(a) + nodes_text(b),
    decreases b.len(),
{
    if b.len() == 0 {
        assert(a + b =~= a);
        assert(nodes_text(b) =~= Seq::<char>::empty());
        assert(nodes_text(a) + nodes_text(b) =~= nodes_text(a));
    } else {
        assert((a + b).drop_last() =~= a + b.drop_last());
        assert((a + b).last() == b.last());
        lemma_sections_concat(a, b.drop_last());
        assert(nodes_text(a + b) =~= nodes_text(a) + nodes_text(b));
    }
}

/// A rendered profile holds the `[common]` section first, then the section
/// of each endpoint exactly where the endpoint stands in the list.
#[verifier::rlimit(40)]
pub proof fn lemma_section_order(s: ServerConfig, i: int)
    requires
        0 <= i < s.nodes@.len(),
    ensures
        ini_text(s) == common_section(s.common) + nodes_text(s.nodes@.subrange(0, i)) + node_section(
            s.nodes@[i],
        ) + nodes_text(s.nodes@.subrange(i + 1, s.nodes@.len() as int)),
{
    let ns = s.nodes@;
    let pre = ns.subrange(0, i);
    let one = ns.subrange(i, i + 1);
    let post = ns.subrange(i + 1, ns.len() as int);
    assert(ns =~= pre + one + post);
    lemma_sections_concat(pre + one, post);
    lemma_sections_concat(pre, one);
    assert(one.drop_last() =~= Seq::<ProxyNode>::empty());
    assert(one.last() == ns[i]);
    assert(nodes_text(one.drop_last()) =~= Seq::<char>::empty());
    assert(nodes_text(one) =~= node_section(ns[i]));
    assert(ini_text(s) =~= common_section(s.common) + nodes_text(pre) + node_section(ns[i])
        + nodes_text(post));
}

/// An endpoint's section is its fixed lines, then its optional lines in
/// their fixed order; with no optional field it is the fixed lines alone.
pub proof fn lemma_no_optional_lines(n: ProxyNode)
    ensures
        node_section(n) == node_head(n) + node_options(n) + "\n"@,
        ({
            let none = ProxyNode {
                remote_port: None,
                custom_domains: None,
                subdomain: None,
                use_encryption: None,
                use_compression: None,
                ..n
            };
            node_section(none) == node_head(n) + "\n"@
        }),
{
    let none = ProxyNode {
        remote_port: None,
        custom_domains: None,
        subdomain: None,
        use_encryption: None,
        use_compression: None,
        ..n
    };
    assert(node_options(none) =~= Seq::<char>::empty());
    assert(node_head(none) == node_head(n));
    assert(node_section(none) =~= node_head(n) + "\n"@);
}

/// The optional lines written before and after each optional field.
pub open spec fn options_after_remote_port(n: ProxyNode) -> Seq<char> {
    opt_line("custom_domains"@, opt_nonempty_text(n.custom_domains))
        + opt_line("subdomain"@, opt_nonempty_text(n.subdomain))
        + opt_line("use_encryption"@, opt_bool_text(n.use_encryption))
        + opt_line("use_compression"@, opt_bool_text(n.use_compression))
}

pub open spec fn options_before_custom_domains(n: ProxyNode) -> Seq<char> {
    opt_line("remote_port"@, opt_port_text(n.remote_port))
}

pub open spec fn options_after_custom_domains(n: ProxyNode) -> Seq<char> {
    opt_line("subdomain"@, opt_nonempty_text(n.subdomain))
        + opt_line("use_encryption"@, opt_bool_text(n.use_encryption))
        + opt_line("use_compression"@, opt_bool_text(n.use_compression))
}

pub open spec fn options_before_subdomain(n: ProxyNode) -> Seq<char> {
    opt_line("remote_port"@, opt_port_text(n.remote_port))
        + opt_line("custom_domains"@, opt_nonempty_text(n.custom_domains))
}

pub open spec fn options_after_subdomain(n: ProxyNode) -> Seq<char> {
    opt_line("use_encryption"@, opt_bool_text(n.use_encryption))
        + opt_line("use_compression"@, opt_bool_text(n.use_compression))
}

pub open spec fn options_before_use_encryption(n: ProxyNode) -> Seq<char> {
    opt_line("remote_port"@, opt_port_text(n.remote_port))
        + opt_line("custom_domains"@, opt_nonempty_text(n.custom_domains))
        + opt_line("subdomain"@, opt_nonempty_text(n.subdomain))
}

pub open spec fn options_after_use_encryption(n: ProxyNode) -> Seq<char> {
    opt_line("use_compression"@, opt_bool_text(n.use_compression))
}

pub open spec fn options_before_use_compression(n: ProxyNode) -> Seq<char> {
    opt_line("remote_port"@, opt_port_text(n.remote_port))
        + opt_line("custom_domains"@, opt_nonempty_text(n.custom_domains))
        + opt_line("subdomain"@, opt_nonempty_text(n.subdomain))
        + opt_line("use_encryption"@, opt_bool_text(n.use_encryption))
}

/// Setting the remote port of an endpoint adds its line, with its value, between
/// the lines of the fields before and after it; leaving it out writes nothing.
pub proof fn lemma_remote_port_line(n: ProxyNode, v: u16)
    ensures
        ({
            let with = ProxyNode { remote_port: Some(v), ..n };
            let without = ProxyNode { remote_port: None, ..n };
            &&& node_head(with) == node_head(n)
            &&& node_options(with) == line("remote_port"@, decimal(v as nat)) + options_after_remote_port(n)
            &&& node_options(without) == options_after_remote_port(n)
        }),
{
    let with = ProxyNode { remote_port: Some(v), ..n };
    let without = ProxyNode { remote_port: None, ..n };
    assert(node_options(with) =~= line("remote_port"@, decimal(v as nat)) + options_after_remote_port(n));
    assert(node_options(without) =~= options_after_remote_port(n));
}

/// Setting the domain list of an endpoint adds its line, with its value, between
/// the lines of the fields before and after it; leaving it out writes nothing.
pub proof fn lemma_custom_domains_line(n: ProxyNode, v: String)
    requires
        v@.len() > 0,
    ensures
        ({
            let with = ProxyNode { custom_domains: Some(v), ..n };
            let without = ProxyNode { custom_domains: None, ..n };
            &&& node_head(with) == node_head(n)
            &&& node_options(with) == options_before_custom_domains(n) + line("custom_domains"@, v@) + options_after_custom_domains(n)
            &&& node_options(without) == options_before_custom_domains(n) + options_after_custom_domains(n)
        }),
{
    let with = ProxyNode { custom_domains: Some(v), ..n };
    let without = ProxyNode { custom_domains: None, ..n };
    assert(node_options(with) =~= options_before_custom_domains(n) + line("custom_domains"@, v@) + options_after_custom_domains(n));
    assert(node_options(without) =~= options_before_custom_domains(n) + options_after_custom_domains(n));
}

/// An empty domain list writes no line at all: the section is the one the
/// endpoint would have without it.
pub proof fn lemma_empty_custom_domains_omitted(n: ProxyNode, v: String)
    requires
        v@.len() == 0,
    ensures
        node_section(ProxyNode { custom_domains: Some(v), ..n }) == node_section(
            ProxyNode { custom_domains: None, ..n },
        ),
{
    let with = ProxyNode { custom_domains: Some(v), ..n };
    let without = ProxyNode { custom_domains: None, ..n };
    assert(node_options(with) =~= node_options(without));
}

/// Setting the subdomain of an endpoint adds its line, with its value, between
/// the lines of the fields before and after it; leaving it out writes nothing.
pub proof fn lemma_subdomain_line(n: ProxyNode, v: String)
    requires
        v@.len() > 0,
    ensures
        ({
            let with = ProxyNode { subdomain: Some(v), ..n };
            let without = ProxyNode { subdomain: None, ..n };
            &&& node_head(with) == node_head(n)
            &&& node_options(with) == options_before_subdomain(n) + line("subdomain"@, v@) + options_after_subdomain(n)
            &&& node_options(without) == options_before_subdomain(n) + options_after_subdomain(n)
        }),
{
    let with = ProxyNode { subdomain: Some(v), ..n };
    let without = ProxyNode { subdomain: None, ..n };
    assert(node_options(with) =~= options_before_subdomain(n) + line("subdomain"@, v@) + options_after_subdomain(n));
    assert(node_options(without) =~= options_before_subdomain(n) + options_after_subdomain(n));
}

/// An empty subdomain writes no line at all: the section is the one the
/// endpoint would have without it.
pub proof fn lemma_empty_subdomain_omitted(n: ProxyNode, v: String)
    requires
        v@.len() == 0,
    ensures
        node_section(ProxyNode { subdomain: Some(v), ..n }) == node_section(
            ProxyNode { subdomain: None, ..n },
        ),
{
    let with = ProxyNode { subdomain: Some(v), ..n };
    let without = ProxyNode { subdomain: None, ..n };
    assert(node_options(with) =~= node_options(without));
}

/// Setting the encryption flag of an endpoint adds its line, with its value, between
/// the lines of the fields before and after it; leaving it out writes nothing.
pub proof fn lemma_use_encryption_line(n: ProxyNode, v: bool)
    ensures
        ({
            let with = ProxyNode { use_encryption: Some(v), ..n };
            let without = ProxyNode { use_encryption: None, ..n };
            &&& node_head(with) == node_head(n)
            &&& node_options(with) == options_before_use_encryption(n) + line("use_encryption"@, bool_text(v)) + options_after_use_encryption(n)
            &&& node_options(without) == options_before_use_encryption(n) + options_after_use_encryption(n)
        }),
{
    let with = ProxyNode { use_encryption: Some(v), ..n };
    let without = ProxyNode { use_encryption: None, ..n };
    assert(node_options(with) =~= options_before_use_encryption(n) + line("use_encryption"@, bool_text(v)) + options_after_use_encryption(n));
    assert(node_options(without) =~= options_before_use_encryption(n) + options_after_use_encryption(n));
}

/// Setting the compression flag of an endpoint adds its line, with its value, between
/// the lines of the fields before and after it; leaving it out writes nothing.
pub proof fn lemma_use_compression_line(n: ProxyNode, v: bool)
    ensures
        ({
            let with = ProxyNode { use_compression: Some(v), ..n };
            let without = ProxyNode { use_compression: None, ..n };
            &&& node_head(with) == node_head(n)
            &&& node_options(with) == options_before_use_compression(n) + line("use_compression"@, bool_text(v))
            &&& node_options(without) == options_before_use_compression(n)
        }),
{
    let with = ProxyNode { use_compression: Some(v), ..n };
    let without = ProxyNode { use_compression: None, ..n };
    assert(node_options(with) =~= options_before_use_compression(n) + line("use_compression"@, bool_text(v)));
    assert(node_options(without) =~= options_before_use_compression(n));
}

} // verus!
