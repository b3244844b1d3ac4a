//! The configuration serializer: a pure function from a tunnel descriptor to
//! the configuration text handed to the external client process. The text is
//! modelled as a sequence of lines joined by a newline; the emission and
//! omission rules of every field are fixed by the spec functions here.

use vstd::prelude::*;
use vstd::string::StringExecFns;

use crate::tunnel::{Tunnel, TunnelView};

verus! {

/// One optional line: emitted with its prefix when the value is non-empty,
/// absent (not blank) otherwise.
pub open spec fn opt_line(prefix: Seq<char>, value: Seq<char>) -> Seq<Seq<char>> {
    if value.len() > 0 {
        seq![prefix + value]
    } else {
        Seq::empty()
    }
}

/// One line combining two optional values: both comma-joined when present,
/// one alone when only one is present, absent when neither is.
pub open spec fn pair_line(prefix: Seq<char>, first: Seq<char>, second: Seq<char>) -> Seq<
    Seq<char>,
> {
    if first.len() > 0 && second.len() > 0 {
        seq![prefix + first + ", "@ + second]
    } else if first.len() > 0 {
        seq![prefix + first]
    } else if second.len() > 0 {
        seq![prefix + second]
    } else {
        Seq::empty()
    }
}

/// All lines of the configuration, in emission order: the `[Interface]`
/// section, one blank separator line, then the `[Peer]` section with the
/// routing rules.
pub open spec fn config_lines(t: TunnelView) -> Seq<Seq<char>> {
    seq!["[Interface]"@] + seq!["PrivateKey = "@ + t.interface.privateKey] + pair_line(
        "Address = "@,
        t.interface.ipv4Address,
        t.interface.ipv6Address,
    ) + opt_line("ListenPort = "@, t.interface.port) + opt_line("DNS = "@, t.interface.dns)
        + opt_line("MTU = "@, t.interface.mtu) + seq![Seq::<char>::empty()] + seq!["[Peer]"@]
        + seq!["PublicKey = "@ + t.peer.publicKey] + opt_line(
        "PresharedKey = "@,
        t.peer.presharedKey,
    ) + seq!["Endpoint = "@ + t.peer.endpoint + ":"@ + t.peer.port] + opt_line(
        "PersistentKeepalive = "@,
        t.peer.persistentKeepalive,
    ) + pair_line("AllowedApps = "@, t.rules.allowed.apps, t.rules.allowed.folders) + opt_line(
        "AllowedIPs = "@,
        t.rules.allowed.ipAddresses,
    ) + pair_line("DisallowedApps = "@, t.rules.disallowed.apps, t.rules.disallowed.folders)
        + opt_line("DisallowedIPs = "@, t.rules.disallowed.ipAddresses)
}

/// The lines joined into one text, each line followed by a newline.
pub open spec fn join_nl(lines: Seq<Seq<char>>) -> Seq<char>
    decreases lines.len(),
{
    if lines.len() == 0 {
        Seq::empty()
    } else {
        lines[0] + "\n"@ + join_nl(lines.drop_first())
    }
}

/// The serialized configuration text of a descriptor.
pub open spec fn spec_serialize(t: TunnelView) -> Seq<char> {
    join_nl(config_lines(t))
}

/// Joining one more line appends that line and a newline.
proof fn lemma_join_push(lines: Seq<Seq<char>>, x: Seq<char>)
    ensures
        join_nl(lines.push(x)) == join_nl(lines) + x + "\n"@,
    decreases lines.len(),
{
    if lines.len() == 0 {
        assert(lines.push(x).drop_first() =~= lines);
        assert(join_nl(lines) + x + "\n"@ =~= x + "\n"@ + join_nl(lines));
    } else {
        lemma_join_push(lines.drop_first(), x);
        assert(lines.push(x).drop_first() =~= lines.drop_first().push(x));
        assert(lines.push(x)[0] == lines[0]);
        assert(lines[0] + "\n"@ + (join_nl(lines.drop_first()) + x + "\n"@) =~= (lines[0] + "\n"@
            + join_nl(lines.drop_first())) + x + "\n"@);
    }
}

/// Push a line that is a literal alone.
fn push_plain_line(lines: &mut Vec<String>, text: &str)
    ensures
        final(lines).deep_view() == old(lines).deep_view() + seq![text@],
{
    lines.push(String::from_str(text));
    proof {
        assert(lines.deep_view() =~= old(lines).deep_view() + seq![text@]);
    }
}

/// Push a line of the form `prefix` + `value`.
fn push_label_line(lines: &mut Vec<String>, prefix: &str, value: &str)
    ensures
        final(lines).deep_view() == old(lines).deep_view() + seq![prefix@ + value@],
{
    let mut line = String::from_str(prefix);
    line.append(value);
    lines.push(line);
    proof {
        assert(lines.deep_view() =~= old(lines).deep_view() + seq![prefix@ + value@]);
    }
}

/// Push the line of an optional field, or nothing when the value is empty.
fn push_opt_line(lines: &mut Vec<String>, prefix: &str, value: &str)
    ensures
        final(lines).deep_view() == old(lines).deep_view() + opt_line(prefix@, value@),
{
    if !value.is_empty() {
        push_label_line(lines, prefix, value);
    } else {
        proof {
            assert(lines.deep_view() =~= old(lines).deep_view() + opt_line(prefix@, value@));
        }
    }
}

/// Push the combined line of two optional values, or nothing when both are
/// empty.
fn push_pair_line(lines: &mut Vec<String>, prefix: &str, first: &str, second: &str)
    ensures
        final(lines).deep_view() == old(lines).deep_view() + pair_line(prefix@, first@, second@),
{
    if !first.is_empty() && !second.is_empty() {
        let mut line = String::from_str(prefix);
        line.append(first);
        line.append(", ");
        line.append(second);
        lines.push(line);
        proof {
            assert(lines.deep_view() =~= old(lines).deep_view() + pair_line(
                prefix@,
                first@,
                second@,
            ));
        }
    } else if !first.is_empty() {
        push_label_line(lines, prefix, first);
    } else if !second.is_empty() {
        push_label_line(lines, prefix, second);
    } else {
        proof {
            assert(lines.deep_view() =~= old(lines).deep_view() + pair_line(
                prefix@,
                first@,
                second@,
            ));
        }
    }
}

/// Join the lines into the final text, each line followed by a newline.
fn join_lines(lines: &Vec<String>) -> (r: String)
    ensures
        r@ == join_nl(lines.deep_view()),
{
    let mut out = String::new();
    let mut k: usize = 0;
    proof {
        assert(lines.deep_view().take(0) =~= Seq::empty());
    }
    while k < lines.len()
        invariant
            k <= lines.len(),
            out@ == join_nl(lines.deep_view().take(k as int)),
        decreases lines.len() - k,
    {
        out.append(lines[k].as_str());
        out.append("\n");
        proof {
            lemma_join_push(lines.deep_view().take(k as int), lines.deep_view()[k as int]);
            assert(lines.deep_view().take(k as int).push(lines.deep_view()[k as int])
                =~= lines.deep_view().take(k + 1));
        }
        k = k + 1;
    }
    proof {
        assert(lines.deep_view().take(lines.len() as int) =~= lines.deep_view());
    }
    out
}

/// The lines of a descriptor's configuration, in emission order.
fn build_config_lines(tunnel: &Tunnel) -> (lines: Vec<String>)
    ensures
        lines.deep_view() == config_lines(tunnel@),
{
    let mut lines: Vec<String> = Vec::new();
    proof {
        assert(lines.deep_view() =~= Seq::<Seq<char>>::empty());
    }
    push_plain_line(&mut lines, "[Interface]");
    proof {
        assert(Seq::<Seq<char>>::empty() + seq!["[Interface]"@] =~= seq!["[Interface]"@]);
    }
    push_label_line(&mut lines, "PrivateKey = ", tunnel.interface.privateKey.as_str());
    push_pair_line(
        &mut lines,
        "Address = ",
        tunnel.interface.ipv4Address.as_str(),
        tunnel.interface.ipv6Address.as_str(),
    );
    push_opt_line(&mut lines, "ListenPort = ", tunnel.interface.port.as_str());
    push_opt_line(&mut lines, "DNS = ", tunnel.interface.dns.as_str());
    push_opt_line(&mut lines, "MTU = ", tunnel.interface.mtu.as_str());
    push_plain_line(&mut lines, "");
    proof {
        reveal_strlit("");
        assert(""@ =~= Seq::<char>::empty());
        assert(seq![""@] =~= seq![Seq::<char>::empty()]);
    }
    push_plain_line(&mut lines, "[Peer]");
    push_label_line(&mut lines, "PublicKey = ", tunnel.peer.publicKey.as_str());
    push_opt_line(&mut lines, "PresharedKey = ", tunnel.peer.presharedKey.as_str());
    let ghost before_endpoint = lines.deep_view();
    let mut endpoint_line = String::from_str("Endpoint = ");
    endpoint_line.append(tunnel.peer.endpoint.as_str());
    endpoint_line.append(":");
    endpoint_line.append(tunnel.peer.port.as_str());
    lines.push(endpoint_line);
    proof {
        assert(lines.deep_view() =~= before_endpoint + seq!["Endpoint = "@ + tunnel@.peer.endpoint
            + ":"@ + tunnel@.peer.port]);
    }
    push_opt_line(&mut lines, "PersistentKeepalive = ", tunnel.peer.persistentKeepalive.as_str());
    push_pair_line(
        &mut lines,
        "AllowedApps = ",
        tunnel.rules.allowed.apps.as_str(),
        tunnel.rules.allowed.folders.as_str(),
    );
    push_opt_line(&mut lines, "AllowedIPs = ", tunnel.rules.allowed.ipAddresses.as_str());
    push_pair_line(
        &mut lines,
        "DisallowedApps = ",
        tunnel.rules.disallowed.apps.as_str(),
        tunnel.rules.disallowed.folders.as_str(),
    );
    push_opt_line(&mut lines, "DisallowedIPs = ", tunnel.rules.disallowed.ipAddresses.as_str());
    proof {
        assert(lines.deep_view() == config_lines(tunnel@));
    }
    lines
}

/// Serialize a descriptor into the configuration text the external client
/// process is started with.
pub fn serialize_config(tunnel: &Tunnel) -> (r: String)
    ensures
        r@ == spec_serialize(tunnel@),
{
    let lines = build_config_lines(tunnel);
    join_lines(&lines)
}

/// The predicate holding of lines that begin with the prefix `p`.
pub open spec fn has_prefix(p: Seq<char>) -> spec_fn(Seq<char>) -> bool {
    |l: Seq<char>| p.is_prefix_of(l)
}

/// The predicate holding of blank lines.
pub open spec fn is_blank() -> spec_fn(Seq<char>) -> bool {
    |l: Seq<char>| l.len() == 0
}

/// Filtering a sequence none of whose elements satisfies the predicate
/// leaves nothing.
proof fn lemma_filter_none<A>(s: Seq<A>, pred: spec_fn(A) -> bool)
    requires
        forall|k: int| 0 <= k < s.len() ==> !pred(#[trigger] s[k]),
    ensures
        s.filter(pred) == Seq::<A>::empty(),
    decreases s.len(),
{
    reveal(Seq::filter);
    if s.len() > 0 {
        assert(forall|k: int| 0 <= k < s.drop_last().len() ==> #[trigger] s.drop_last()[k]
            == s[k]);
        lemma_filter_none(s.drop_last(), pred);
        assert(!pred(s.last()));
    }
    assert(s.filter(pred) =~= Seq::<A>::empty());
}

/// A one-element sequence whose element satisfies the predicate filters to
/// itself.
proof fn lemma_filter_singleton_true(x: Seq<char>, pred: spec_fn(Seq<char>) -> bool)
    requires
        pred(x),
    ensures
        seq![x].filter(pred) == seq![x],
{
    reveal_with_fuel(Seq::<_>::filter, 2);
    assert(seq![x].drop_last() =~= Seq::<Seq<char>>::empty());
    assert(seq![x].last() == x);
    assert(Seq::<Seq<char>>::empty().push(x) =~= seq![x]);
}

/// A one-element sequence whose element fails the predicate filters to
/// nothing.
proof fn lemma_filter_singleton_false(x: Seq<char>, pred: spec_fn(Seq<char>) -> bool)
    requires
        !pred(x),
    ensures
        seq![x].filter(pred) == Seq::<Seq<char>>::empty(),
{
    reveal_with_fuel(Seq::<_>::filter, 2);
    assert(seq![x].drop_last() =~= Seq::<Seq<char>>::empty());
    assert(seq![x].last() == x);
}

/// A sequence is a prefix of itself extended by anything.
proof fn lemma_prefix_of_extension(p: Seq<char>, v: Seq<char>)
    ensures
        p.is_prefix_of(p + v),
{
    assert((p + v).subrange(0, p.len() as int) =~= p);
}

/// A line starting with `head` does not start with `p` when the two differ
/// at some position `j` inside both.
proof fn lemma_head_mismatch(p: Seq<char>, head: Seq<char>, tail: Seq<char>, j: int)
    requires
        0 <= j < p.len(),
        j < head.len(),
        p[j] != head[j],
    ensures
        !p.is_prefix_of(head + tail),
{
    if p.is_prefix_of(head + tail) {
        assert(p[j] == (head + tail).subrange(0, p.len() as int)[j]);
        assert((head + tail)[j] == head[j]);
    }
}

/// A literal line does not start with `p` when the two differ at some
/// position `j` inside both.
proof fn lemma_lit_mismatch(p: Seq<char>, l: Seq<char>, j: int)
    requires
        0 <= j < p.len(),
        j < l.len(),
        p[j] != l[j],
    ensures
        !p.is_prefix_of(l),
{
    if p.is_prefix_of(l) {
        assert(p[j] == l.subrange(0, p.len() as int)[j]);
    }
}

/// No line of an optional-field piece starts with `p` when `p` differs from
/// the piece's own prefix at position `j`.
proof fn lemma_opt_no_prefix(q: Seq<char>, v: Seq<char>, p: Seq<char>, j: int)
    requires
        0 <= j < p.len(),
        j < q.len(),
        p[j] != q[j],
    ensures
        opt_line(q, v).filter(has_prefix(p)) == Seq::<Seq<char>>::empty(),
{
    if v.len() > 0 {
        lemma_head_mismatch(p, q, v, j);
        lemma_filter_singleton_false(q + v, has_prefix(p));
    } else {
        lemma_filter_none(opt_line(q, v), has_prefix(p));
    }
}

/// No line of a combined-pair piece starts with `p` when `p` differs from
/// the piece's own prefix at position `j`.
proof fn lemma_pair_no_prefix(q: Seq<char>, a: Seq<char>, b: Seq<char>, p: Seq<char>, j: int)
    requires
        0 <= j < p.len(),
        j < q.len(),
        p[j] != q[j],
    ensures
        pair_line(q, a, b).filter(has_prefix(p)) == Seq::<Seq<char>>::empty(),
{
    if a.len() > 0 && b.len() > 0 {
        assert(q + a + ", "@ + b =~= q + (a + ", "@ + b));
        lemma_head_mismatch(p, q, a + ", "@ + b, j);
        lemma_filter_singleton_false(q + a + ", "@ + b, has_prefix(p));
    } else if a.len() > 0 {
        lemma_head_mismatch(p, q, a, j);
        lemma_filter_singleton_false(q + a, has_prefix(p));
    } else if b.len() > 0 {
        lemma_head_mismatch(p, q, b, j);
        lemma_filter_singleton_false(q + b, has_prefix(p));
    } else {
        lemma_filter_none(pair_line(q, a, b), has_prefix(p));
    }
}

/// An always-emitted labelled line does not start with `p` when `p` differs
/// from its prefix at position `j`.
proof fn lemma_label_no_prefix(q: Seq<char>, v: Seq<char>, p: Seq<char>, j: int)
    requires
        0 <= j < p.len(),
        j < q.len(),
        p[j] != q[j],
    ensures
        seq![q + v].filter(has_prefix(p)) == Seq::<Seq<char>>::empty(),
{
    lemma_head_mismatch(p, q, v, j);
    lemma_filter_singleton_false(q + v, has_prefix(p));
}

/// A literal line does not start with `p` when the two differ at position
/// `j`.
proof fn lemma_lit_no_prefix(l: Seq<char>, p: Seq<char>, j: int)
    requires
        0 <= j < p.len(),
        j < l.len(),
        p[j] != l[j],
    ensures
        seq![l].filter(has_prefix(p)) == Seq::<Seq<char>>::empty(),
{
    lemma_lit_mismatch(p, l, j);
    lemma_filter_singleton_false(l, has_prefix(p));
}

/// A line shorter than `p` does not start with `p`.
proof fn lemma_short_no_prefix(l: Seq<char>, p: Seq<char>)
    requires
        l.len() < p.len(),
    ensures
        seq![l].filter(has_prefix(p)) == Seq::<Seq<char>>::empty(),
{
    lemma_filter_singleton_false(l, has_prefix(p));
}

/// The endpoint line does not start with `p` when `p` differs from its
/// prefix at position `j`.
proof fn lemma_endpoint_no_prefix(e: Seq<char>, port: Seq<char>, p: Seq<char>, j: int)
    requires
        0 <= j < p.len(),
        j < "Endpoint = "@.len(),
        p[j] != "Endpoint = "@[j],
    ensures
        seq!["Endpoint = "@ + e + ":"@ + port].filter(has_prefix(p)) == Seq::<
            Seq<char>,
        >::empty(),
{
    assert("Endpoint = "@ + e + ":"@ + port =~= "Endpoint = "@ + (e + ":"@ + port));
    lemma_head_mismatch(p, "Endpoint = "@, e + ":"@ + port, j);
    lemma_filter_singleton_false("Endpoint = "@ + e + ":"@ + port, has_prefix(p));
}

/// Joining distributes over concatenation of line blocks.
proof fn lemma_join_concat(a: Seq<Seq<char>>, b: Seq<Seq<char>>)
    ensures
        join_nl(a + b) == join_nl(a) + join_nl(b),
    decreases a.len(),
{
    if a.len() == 0 {
        assert(a + b =~= b);
        assert(join_nl(a) + join_nl(b) =~= join_nl(b));
    } else {
        assert((a + b).drop_first() =~= a.drop_first() + b);
        assert((a + b)[0] == a[0]);
        lemma_join_concat(a.drop_first(), b);
        assert(a[0] + "\n"@ + (join_nl(a.drop_first()) + join_nl(b)) =~= (a[0] + "\n"@ + join_nl(
            a.drop_first(),
        )) + join_nl(b));
    }
}

/// For a descriptor with both an IPv4 and an IPv6 address set, the
/// serialized text itself carries the combined address line, closed by
/// its newline.
#[verifier::rlimit(100)]
pub proof fn lemma_serialized_contains_address_line(t: TunnelView)
    requires
        t.interface.ipv4Address.len() > 0,
        t.interface.ipv6Address.len() > 0,
    ensures
        crate::text::contains_seq(
            spec_serialize(t),
            "Address = "@ + t.interface.ipv4Address + ", "@ + t.interface.ipv6Address + "\n"@,
        ),
{
    let head = seq!["[Interface]"@] + seq!["PrivateKey = "@ + t.interface.privateKey];
    let addr = "Address = "@ + t.interface.ipv4Address + ", "@ + t.interface.ipv6Address;
    let tail = opt_line("ListenPort = "@, t.interface.port) + opt_line(
        "DNS = "@,
        t.interface.dns,
    ) + opt_line("MTU = "@, t.interface.mtu) + seq![Seq::<char>::empty()] + seq!["[Peer]"@]
        + seq!["PublicKey = "@ + t.peer.publicKey] + opt_line(
        "PresharedKey = "@,
        t.peer.presharedKey,
    ) + seq!["Endpoint = "@ + t.peer.endpoint + ":"@ + t.peer.port] + opt_line(
        "PersistentKeepalive = "@,
        t.peer.persistentKeepalive,
    ) + pair_line("AllowedApps = "@, t.rules.allowed.apps, t.rules.allowed.folders) + opt_line(
        "AllowedIPs = "@,
        t.rules.allowed.ipAddresses,
    ) + pair_line("DisallowedApps = "@, t.rules.disallowed.apps, t.rules.disallowed.folders)
        + opt_line("DisallowedIPs = "@, t.rules.disallowed.ipAddresses);
    assert(config_lines(t) =~= head + seq![addr] + tail);
    lemma_join_concat(head + seq![addr], tail);
    lemma_join_concat(head, seq![addr]);
    assert(seq![addr].drop_first() =~= Seq::<Seq<char>>::empty());
    assert(join_nl(Seq::<Seq<char>>::empty()) == Seq::<char>::empty());
    assert(join_nl(seq![addr]) =~= addr + "\n"@);
    let x = join_nl(head);
    let y = addr + "\n"@;
    let z = join_nl(tail);
    assert(spec_serialize(t) == (x + y) + z);
    let i = x.len() as int;
    assert(spec_serialize(t).subrange(i, i + y.len() as int) =~= y);
    assert(crate::text::contains_at(spec_serialize(t), y, i));
}

/// For a descriptor with both an IPv4 and an IPv6 address set, the
/// configuration holds exactly one address line, and it lists both
/// addresses, comma-separated, IPv4 first.
pub proof fn lemma_single_address_line(t: TunnelView)
    requires
        t.interface.ipv4Address.len() > 0,
        t.interface.ipv6Address.len() > 0,
    ensures
        config_lines(t).filter(has_prefix("Address = "@)) == seq!["Address = "@
            + t.interface.ipv4Address + ", "@ + t.interface.ipv6Address],
{
    broadcast use vstd::seq_lib::group_seq_lib_default;

    reveal_strlit("[Interface]");
    reveal_strlit("PrivateKey = ");
    reveal_strlit("Address = ");
    reveal_strlit("ListenPort = ");
    reveal_strlit("DNS = ");
    reveal_strlit("MTU = ");
    reveal_strlit("[Peer]");
    reveal_strlit("PublicKey = ");
    reveal_strlit("PresharedKey = ");
    reveal_strlit("Endpoint = ");
    reveal_strlit("PersistentKeepalive = ");
    reveal_strlit("AllowedApps = ");
    reveal_strlit("AllowedIPs = ");
    reveal_strlit("DisallowedApps = ");
    reveal_strlit("DisallowedIPs = ");
    let p = "Address = "@;
    let addr = p + t.interface.ipv4Address + ", "@ + t.interface.ipv6Address;
    lemma_lit_no_prefix("[Interface]"@, p, 0);
    lemma_label_no_prefix("PrivateKey = "@, t.interface.privateKey, p, 0);
    assert(addr =~= p + (t.interface.ipv4Address + ", "@ + t.interface.ipv6Address));
    lemma_prefix_of_extension(p, t.interface.ipv4Address + ", "@ + t.interface.ipv6Address);
    lemma_filter_singleton_true(addr, has_prefix(p));
    lemma_opt_no_prefix("ListenPort = "@, t.interface.port, p, 0);
    lemma_opt_no_prefix("DNS = "@, t.interface.dns, p, 0);
    lemma_opt_no_prefix("MTU = "@, t.interface.mtu, p, 0);
    lemma_short_no_prefix(Seq::<char>::empty(), p);
    lemma_lit_no_prefix("[Peer]"@, p, 0);
    lemma_label_no_prefix("PublicKey = "@, t.peer.publicKey, p, 0);
    lemma_opt_no_prefix("PresharedKey = "@, t.peer.presharedKey, p, 0);
    lemma_endpoint_no_prefix(t.peer.endpoint, t.peer.port, p, 0);
    lemma_opt_no_prefix("PersistentKeepalive = "@, t.peer.persistentKeepalive, p, 0);
    lemma_pair_no_prefix("AllowedApps = "@, t.rules.allowed.apps, t.rules.allowed.folders, p, 1);
    lemma_opt_no_prefix("AllowedIPs = "@, t.rules.allowed.ipAddresses, p, 1);
    lemma_pair_no_prefix(
        "DisallowedApps = "@,
        t.rules.disallowed.apps,
        t.rules.disallowed.folders,
        p,
        0,
    );
    lemma_opt_no_prefix("DisallowedIPs = "@, t.rules.disallowed.ipAddresses, p, 0);
    assert(config_lines(t).filter(has_prefix(p)) =~= seq![addr]);
}


/// An optional piece whose value is empty contributes no line at all.
proof fn lemma_empty_opt_filter(q: Seq<char>, v: Seq<char>, pred: spec_fn(Seq<char>) -> bool)
    requires
        v.len() == 0,
    ensures
        opt_line(q, v).filter(pred) == Seq::<Seq<char>>::empty(),
{
    lemma_filter_none(opt_line(q, v), pred);
}

/// A pair piece both of whose values are empty contributes no line at all.
proof fn lemma_empty_pair_filter(
    q: Seq<char>,
    a: Seq<char>,
    b: Seq<char>,
    pred: spec_fn(Seq<char>) -> bool,
)
    requires
        a.len() == 0,
        b.len() == 0,
    ensures
        pair_line(q, a, b).filter(pred) == Seq::<Seq<char>>::empty(),
{
    lemma_filter_none(pair_line(q, a, b), pred);
}

/// A non-empty literal line is not blank.
proof fn lemma_lit_no_blank(l: Seq<char>)
    requires
        l.len() > 0,
    ensures
        seq![l].filter(is_blank()) == Seq::<Seq<char>>::empty(),
{
    lemma_filter_singleton_false(l, is_blank());
}

/// A labelled line is never blank: it starts with its non-empty prefix.
proof fn lemma_label_no_blank(q: Seq<char>, v: Seq<char>)
    requires
        q.len() > 0,
    ensures
        seq![q + v].filter(is_blank()) == Seq::<Seq<char>>::empty(),
{
    lemma_filter_singleton_false(q + v, is_blank());
}

/// An optional piece emits no blank line: either nothing, or a line that
/// starts with its non-empty prefix.
proof fn lemma_opt_no_blank(q: Seq<char>, v: Seq<char>)
    requires
        q.len() > 0,
    ensures
        opt_line(q, v).filter(is_blank()) == Seq::<Seq<char>>::empty(),
{
    if v.len() > 0 {
        lemma_filter_singleton_false(q + v, is_blank());
    } else {
        lemma_filter_none(opt_line(q, v), is_blank());
    }
}

/// A pair piece emits no blank line: either nothing, or a line that starts
/// with its non-empty prefix.
proof fn lemma_pair_no_blank(q: Seq<char>, a: Seq<char>, b: Seq<char>)
    requires
        q.len() > 0,
    ensures
        pair_line(q, a, b).filter(is_blank()) == Seq::<Seq<char>>::empty(),
{
    if a.len() > 0 && b.len() > 0 {
        lemma_filter_singleton_false(q + a + ", "@ + b, is_blank());
    } else if a.len() > 0 {
        lemma_filter_singleton_false(q + a, is_blank());
    } else if b.len() > 0 {
        lemma_filter_singleton_false(q + b, is_blank());
    } else {
        lemma_filter_none(pair_line(q, a, b), is_blank());
    }
}

/// With an empty listen port, no line of the configuration starts with
/// the listen-port prefix.
proof fn lemma_no_listen_port_line(t: TunnelView)
    requires
        t.interface.port.len() == 0,
    ensures
        config_lines(t).filter(has_prefix("ListenPort = "@)) == Seq::<Seq<char>>::empty(),
{
    broadcast use vstd::seq_lib::group_seq_lib_default;

    reveal_strlit("[Interface]");
    reveal_strlit("PrivateKey = ");
    reveal_strlit("Address = ");
    reveal_strlit("ListenPort = ");
    reveal_strlit("DNS = ");
    reveal_strlit("MTU = ");
    reveal_strlit("[Peer]");
    reveal_strlit("PublicKey = ");
    reveal_strlit("PresharedKey = ");
    reveal_strlit("Endpoint = ");
    reveal_strlit("PersistentKeepalive = ");
    reveal_strlit("AllowedApps = ");
    reveal_strlit("AllowedIPs = ");
    reveal_strlit("DisallowedApps = ");
    reveal_strlit("DisallowedIPs = ");
    let p = "ListenPort = "@;
    lemma_lit_no_prefix("[Interface]"@, p, 0);
    lemma_label_no_prefix("PrivateKey = "@, t.interface.privateKey, p, 0);
    lemma_pair_no_prefix("Address = "@, t.interface.ipv4Address, t.interface.ipv6Address, p, 0);
    lemma_empty_opt_filter("ListenPort = "@, t.interface.port, has_prefix(p));
    lemma_opt_no_prefix("DNS = "@, t.interface.dns, p, 0);
    lemma_opt_no_prefix("MTU = "@, t.interface.mtu, p, 0);
    lemma_short_no_prefix(Seq::<char>::empty(), p);
    lemma_lit_no_prefix("[Peer]"@, p, 0);
    lemma_label_no_prefix("PublicKey = "@, t.peer.publicKey, p, 0);
    lemma_opt_no_prefix("PresharedKey = "@, t.peer.presharedKey, p, 0);
    lemma_endpoint_no_prefix(t.peer.endpoint, t.peer.port, p, 0);
    lemma_opt_no_prefix("PersistentKeepalive = "@, t.peer.persistentKeepalive, p, 0);
    lemma_pair_no_prefix("AllowedApps = "@, t.rules.allowed.apps, t.rules.allowed.folders, p, 0);
    lemma_opt_no_prefix("AllowedIPs = "@, t.rules.allowed.ipAddresses, p, 0);
    lemma_pair_no_prefix("DisallowedApps = "@, t.rules.disallowed.apps, t.rules.disallowed.folders, p, 0);
    lemma_opt_no_prefix("DisallowedIPs = "@, t.rules.disallowed.ipAddresses, p, 0);
    assert(config_lines(t).filter(has_prefix(p)) =~= Seq::<Seq<char>>::empty());
}

/// With an empty DNS value, no line of the configuration starts with the
/// DNS prefix.
proof fn lemma_no_dns_line(t: TunnelView)
    requires
        t.interface.dns.len() == 0,
    ensures
        config_lines(t).filter(has_prefix("DNS = "@)) == Seq::<Seq<char>>::empty(),
{
    broadcast use vstd::seq_lib::group_seq_lib_default;

    reveal_strlit("[Interface]");
    reveal_strlit("PrivateKey = ");
    reveal_strlit("Address = ");
    reveal_strlit("ListenPort = ");
    reveal_strlit("DNS = ");
    reveal_strlit("MTU = ");
    reveal_strlit("[Peer]");
    reveal_strlit("PublicKey = ");
    reveal_strlit("PresharedKey = ");
    reveal_strlit("Endpoint = ");
    reveal_strlit("PersistentKeepalive = ");
    reveal_strlit("AllowedApps = ");
    reveal_strlit("AllowedIPs = ");
    reveal_strlit("DisallowedApps = ");
    reveal_strlit("DisallowedIPs = ");
    let p = "DNS = "@;
    lemma_lit_no_prefix("[Interface]"@, p, 0);
    lemma_label_no_prefix("PrivateKey = "@, t.interface.privateKey, p, 0);
    lemma_pair_no_prefix("Address = "@, t.interface.ipv4Address, t.interface.ipv6Address, p, 0);
    lemma_opt_no_prefix("ListenPort = "@, t.interface.port, p, 0);
    lemma_empty_opt_filter("DNS = "@, t.interface.dns, has_prefix(p));
    lemma_opt_no_prefix("MTU = "@, t.interface.mtu, p, 0);
    lemma_short_no_prefix(Seq::<char>::empty(), p);
    lemma_lit_no_prefix("[Peer]"@, p, 0);
    lemma_label_no_prefix("PublicKey = "@, t.peer.publicKey, p, 0);
    lemma_opt_no_prefix("PresharedKey = "@, t.peer.presharedKey, p, 0);
    lemma_endpoint_no_prefix(t.peer.endpoint, t.peer.port, p, 0);
    lemma_opt_no_prefix("PersistentKeepalive = "@, t.peer.persistentKeepalive, p, 0);
    lemma_pair_no_prefix("AllowedApps = "@, t.rules.allowed.apps, t.rules.allowed.folders, p, 0);
    lemma_opt_no_prefix("AllowedIPs = "@, t.rules.allowed.ipAddresses, p, 0);
    lemma_pair_no_prefix("DisallowedApps = "@, t.rules.disallowed.apps, t.rules.disallowed.folders, p, 1);
    lemma_opt_no_prefix("DisallowedIPs = "@, t.rules.disallowed.ipAddresses, p, 1);
    assert(config_lines(t).filter(has_prefix(p)) =~= Seq::<Seq<char>>::empty());
}

/// With an empty MTU value, no line of the configuration starts with the
/// MTU prefix.
proof fn lemma_no_mtu_line(t: TunnelView)
    requires
        t.interface.mtu.len() == 0,
    ensures
        config_lines(t).filter(has_prefix("MTU = "@)) == Seq::<Seq<char>>::empty(),
{
    broadcast use vstd::seq_lib::group_seq_lib_default;

    reveal_strlit("[Interface]");
    reveal_strlit("PrivateKey = ");
    reveal_strlit("Address = ");
    reveal_strlit("ListenPort = ");
    reveal_strlit("DNS = ");
    reveal_strlit("MTU = ");
    reveal_strlit("[Peer]");
    reveal_strlit("PublicKey = ");
    reveal_strlit("PresharedKey = ");
    reveal_strlit("Endpoint = ");
    reveal_strlit("PersistentKeepalive = ");
    reveal_strlit("AllowedApps = ");
    reveal_strlit("AllowedIPs = ");
    reveal_strlit("DisallowedApps = ");
    reveal_strlit("DisallowedIPs = ");
    let p = "MTU = "@;
    lemma_lit_no_prefix("[Interface]"@, p, 0);
    lemma_label_no_prefix("PrivateKey = "@, t.interface.privateKey, p, 0);
    lemma_pair_no_prefix("Address = "@, t.interface.ipv4Address, t.interface.ipv6Address, p, 0);
    lemma_opt_no_prefix("ListenPort = "@, t.interface.port, p, 0);
    lemma_opt_no_prefix("DNS = "@, t.interface.dns, p, 0);
    lemma_empty_opt_filter("MTU = "@, t.interface.mtu, has_prefix(p));
    lemma_short_no_prefix(Seq::<char>::empty(), p);
    lemma_lit_no_prefix("[Peer]"@, p, 0);
    lemma_label_no_prefix("PublicKey = "@, t.peer.publicKey, p, 0);
    lemma_opt_no_prefix("PresharedKey = "@, t.peer.presharedKey, p, 0);
    lemma_endpoint_no_prefix(t.peer.endpoint, t.peer.port, p, 0);
    lemma_opt_no_prefix("PersistentKeepalive = "@, t.peer.persistentKeepalive, p, 0);
    lemma_pair_no_prefix("AllowedApps = "@, t.rules.allowed.apps, t.rules.allowed.folders, p, 0);
    lemma_opt_no_prefix("AllowedIPs = "@, t.rules.allowed.ipAddresses, p, 0);
    lemma_pair_no_prefix("DisallowedApps = "@, t.rules.disallowed.apps, t.rules.disallowed.folders, p, 0);
    lemma_opt_no_prefix("DisallowedIPs = "@, t.rules.disallowed.ipAddresses, p, 0);
    assert(config_lines(t).filter(has_prefix(p)) =~= Seq::<Seq<char>>::empty());
}

/// With an empty preshared key, no line of the configuration starts with
/// the preshared-key prefix.
proof fn lemma_no_preshared_key_line(t: TunnelView)
    requires
        t.peer.presharedKey.len() == 0,
    ensures
        config_lines(t).filter(has_prefix("PresharedKey = "@)) == Seq::<Seq<char>>::empty(),
{
    broadcast use vstd::seq_lib::group_seq_lib_default;

    reveal_strlit("[Interface]");
    reveal_strlit("PrivateKey = ");
    reveal_strlit("Address = ");
    reveal_strlit("ListenPort = ");
    reveal_strlit("DNS = ");
    reveal_strlit("MTU = ");
    reveal_strlit("[Peer]");
    reveal_strlit("PublicKey = ");
    reveal_strlit("PresharedKey = ");
    reveal_strlit("Endpoint = ");
    reveal_strlit("PersistentKeepalive = ");
    reveal_strlit("AllowedApps = ");
    reveal_strlit("AllowedIPs = ");
    reveal_strlit("DisallowedApps = ");
    reveal_strlit("DisallowedIPs = ");
    let p = "PresharedKey = "@;
    lemma_lit_no_prefix("[Interface]"@, p, 0);
    lemma_label_no_prefix("PrivateKey = "@, t.interface.privateKey, p, 2);
    lemma_pair_no_prefix("Address = "@, t.interface.ipv4Address, t.interface.ipv6Address, p, 0);
    lemma_opt_no_prefix("ListenPort = "@, t.interface.port, p, 0);
    lemma_opt_no_prefix("DNS = "@, t.interface.dns, p, 0);
    lemma_opt_no_prefix("MTU = "@, t.interface.mtu, p, 0);
    lemma_short_no_prefix(Seq::<char>::empty(), p);
    lemma_lit_no_prefix("[Peer]"@, p, 0);
    lemma_label_no_prefix("PublicKey = "@, t.peer.publicKey, p, 1);
    lemma_empty_opt_filter("PresharedKey = "@, t.peer.presharedKey, has_prefix(p));
    lemma_endpoint_no_prefix(t.peer.endpoint, t.peer.port, p, 0);
    lemma_opt_no_prefix("PersistentKeepalive = "@, t.peer.persistentKeepalive, p, 2);
    lemma_pair_no_prefix("AllowedApps = "@, t.rules.allowed.apps, t.rules.allowed.folders, p, 0);
    lemma_opt_no_prefix("AllowedIPs = "@, t.rules.allowed.ipAddresses, p, 0);
    lemma_pair_no_prefix("DisallowedApps = "@, t.rules.disallowed.apps, t.rules.disallowed.folders, p, 0);
    lemma_opt_no_prefix("DisallowedIPs = "@, t.rules.disallowed.ipAddresses, p, 0);
    assert(config_lines(t).filter(has_prefix(p)) =~= Seq::<Seq<char>>::empty());
}

/// With an empty keepalive interval, no line of the configuration starts
/// with the keepalive prefix.
proof fn lemma_no_keepalive_line(t: TunnelView)
    requires
        t.peer.persistentKeepalive.len() == 0,
    ensures
        config_lines(t).filter(has_prefix("PersistentKeepalive = "@)) == Seq::<Seq<char>>::empty(),
{
    broadcast use vstd::seq_lib::group_seq_lib_default;

    reveal_strlit("[Interface]");
    reveal_strlit("PrivateKey = ");
    reveal_strlit("Address = ");
    reveal_strlit("ListenPort = ");
    reveal_strlit("DNS = ");
    reveal_strlit("MTU = ");
    reveal_strlit("[Peer]");
    reveal_strlit("PublicKey = ");
    reveal_strlit("PresharedKey = ");
    reveal_strlit("Endpoint = ");
    reveal_strlit("PersistentKeepalive = ");
    reveal_strlit("AllowedApps = ");
    reveal_strlit("AllowedIPs = ");
    reveal_strlit("DisallowedApps = ");
    reveal_strlit("DisallowedIPs = ");
    let p = "PersistentKeepalive = "@;
    lemma_lit_no_prefix("[Interface]"@, p, 0);
    lemma_label_no_prefix("PrivateKey = "@, t.interface.privateKey, p, 1);
    lemma_pair_no_prefix("Address = "@, t.interface.ipv4Address, t.interface.ipv6Address, p, 0);
    lemma_opt_no_prefix("ListenPort = "@, t.interface.port, p, 0);
    lemma_opt_no_prefix("DNS = "@, t.interface.dns, p, 0);
    lemma_opt_no_prefix("MTU = "@, t.interface.mtu, p, 0);
    lemma_short_no_prefix(Seq::<char>::empty(), p);
    lemma_lit_no_prefix("[Peer]"@, p, 0);
    lemma_label_no_prefix("PublicKey = "@, t.peer.publicKey, p, 1);
    lemma_opt_no_prefix("PresharedKey = "@, t.peer.presharedKey, p, 1);
    lemma_endpoint_no_prefix(t.peer.endpoint, t.peer.port, p, 0);
    lemma_empty_opt_filter("PersistentKeepalive = "@, t.peer.persistentKeepalive, has_prefix(p));
    lemma_pair_no_prefix("AllowedApps = "@, t.rules.allowed.apps, t.rules.allowed.folders, p, 0);
    lemma_opt_no_prefix("AllowedIPs = "@, t.rules.allowed.ipAddresses, p, 0);
    lemma_pair_no_prefix("DisallowedApps = "@, t.rules.disallowed.apps, t.rules.disallowed.folders, p, 0);
    lemma_opt_no_prefix("DisallowedIPs = "@, t.rules.disallowed.ipAddresses, p, 0);
    assert(config_lines(t).filter(has_prefix(p)) =~= Seq::<Seq<char>>::empty());
}

/// With empty allowed apps and folders, no line of the configuration
/// starts with the allowed-apps prefix.
proof fn lemma_no_allowed_apps_line(t: TunnelView)
    requires
        t.rules.allowed.apps.len() == 0 && t.rules.allowed.folders.len() == 0,
    ensures
        config_lines(t).filter(has_prefix("AllowedApps = "@)) == Seq::<Seq<char>>::empty(),
{
    broadcast use vstd::seq_lib::group_seq_lib_default;

    reveal_strlit("[Interface]");
    reveal_strlit("PrivateKey = ");
    reveal_strlit("Address = ");
    reveal_strlit("ListenPort = ");
    reveal_strlit("DNS = ");
    reveal_strlit("MTU = ");
    reveal_strlit("[Peer]");
    reveal_strlit("PublicKey = ");
    reveal_strlit("PresharedKey = ");
    reveal_strlit("Endpoint = ");
    reveal_strlit("PersistentKeepalive = ");
    reveal_strlit("AllowedApps = ");
    reveal_strlit("AllowedIPs = ");
    reveal_strlit("DisallowedApps = ");
    reveal_strlit("DisallowedIPs = ");
    let p = "AllowedApps = "@;
    lemma_lit_no_prefix("[Interface]"@, p, 0);
    lemma_label_no_prefix("PrivateKey = "@, t.interface.privateKey, p, 0);
    lemma_pair_no_prefix("Address = "@, t.interface.ipv4Address, t.interface.ipv6Address, p, 1);
    lemma_opt_no_prefix("ListenPort = "@, t.interface.port, p, 0);
    lemma_opt_no_prefix("DNS = "@, t.interface.dns, p, 0);
    lemma_opt_no_prefix("MTU = "@, t.interface.mtu, p, 0);
    lemma_short_no_prefix(Seq::<char>::empty(), p);
    lemma_lit_no_prefix("[Peer]"@, p, 0);
    lemma_label_no_prefix("PublicKey = "@, t.peer.publicKey, p, 0);
    lemma_opt_no_prefix("PresharedKey = "@, t.peer.presharedKey, p, 0);
    lemma_endpoint_no_prefix(t.peer.endpoint, t.peer.port, p, 0);
    lemma_opt_no_prefix("PersistentKeepalive = "@, t.peer.persistentKeepalive, p, 0);
    lemma_empty_pair_filter("AllowedApps = "@, t.rules.allowed.apps, t.rules.allowed.folders, has_prefix(p));
    lemma_opt_no_prefix("AllowedIPs = "@, t.rules.allowed.ipAddresses, p, 7);
    lemma_pair_no_prefix("DisallowedApps = "@, t.rules.disallowed.apps, t.rules.disallowed.folders, p, 0);
    lemma_opt_no_prefix("DisallowedIPs = "@, t.rules.disallowed.ipAddresses, p, 0);
    assert(config_lines(t).filter(has_prefix(p)) =~= Seq::<Seq<char>>::empty());
}

/// With empty allowed IP ranges, no line of the configuration starts with
/// the allowed-IPs prefix.
proof fn lemma_no_allowed_ips_line(t: TunnelView)
    requires
        t.rules.allowed.ipAddresses.len() == 0,
    ensures
        config_lines(t).filter(has_prefix("AllowedIPs = "@)) == Seq::<Seq<char>>::empty(),
{
    broadcast use vstd::seq_lib::group_seq_lib_default;

    reveal_strlit("[Interface]");
    reveal_strlit("PrivateKey = ");
    reveal_strlit("Address = ");
    reveal_strlit("ListenPort = ");
    reveal_strlit("DNS = ");
    reveal_strlit("MTU = ");
    reveal_strlit("[Peer]");
    reveal_strlit("PublicKey = ");
    reveal_strlit("PresharedKey = ");
    reveal_strlit("Endpoint = ");
    reveal_strlit("PersistentKeepalive = ");
    reveal_strlit("AllowedApps = ");
    reveal_strlit("AllowedIPs = ");
    reveal_strlit("DisallowedApps = ");
    reveal_strlit("DisallowedIPs = ");
    let p = "AllowedIPs = "@;
    lemma_lit_no_prefix("[Interface]"@, p, 0);
    lemma_label_no_prefix("PrivateKey = "@, t.interface.privateKey, p, 0);
    lemma_pair_no_prefix("Address = "@, t.interface.ipv4Address, t.interface.ipv6Address, p, 1);
    lemma_opt_no_prefix("ListenPort = "@, t.interface.port, p, 0);
    lemma_opt_no_prefix("DNS = "@, t.interface.dns, p, 0);
    lemma_opt_no_prefix("MTU = "@, t.interface.mtu, p, 0);
    lemma_short_no_prefix(Seq::<char>::empty(), p);
    lemma_lit_no_prefix("[Peer]"@, p, 0);
    lemma_label_no_prefix("PublicKey = "@, t.peer.publicKey, p, 0);
    lemma_opt_no_prefix("PresharedKey = "@, t.peer.presharedKey, p, 0);
    lemma_endpoint_no_prefix(t.peer.endpoint, t.peer.port, p, 0);
    lemma_opt_no_prefix("PersistentKeepalive = "@, t.peer.persistentKeepalive, p, 0);
    lemma_pair_no_prefix("AllowedApps = "@, t.rules.allowed.apps, t.rules.allowed.folders, p, 7);
    lemma_empty_opt_filter("AllowedIPs = "@, t.rules.allowed.ipAddresses, has_prefix(p));
    lemma_pair_no_prefix("DisallowedApps = "@, t.rules.disallowed.apps, t.rules.disallowed.folders, p, 0);
    lemma_opt_no_prefix("DisallowedIPs = "@, t.rules.disallowed.ipAddresses, p, 0);
    assert(config_lines(t).filter(has_prefix(p)) =~= Seq::<Seq<char>>::empty());
}

/// With empty disallowed apps and folders, no line of the configuration
/// starts with the disallowed-apps prefix.
proof fn lemma_no_disallowed_apps_line(t: TunnelView)
    requires
        t.rules.disallowed.apps.len() == 0 && t.rules.disallowed.folders.len() == 0,
    ensures
        config_lines(t).filter(has_prefix("DisallowedApps = "@)) == Seq::<Seq<char>>::empty(),
{
    broadcast use vstd::seq_lib::group_seq_lib_default;

    reveal_strlit("[Interface]");
    reveal_strlit("PrivateKey = ");
    reveal_strlit("Address = ");
    reveal_strlit("ListenPort = ");
    reveal_strlit("DNS = ");
    reveal_strlit("MTU = ");
    reveal_strlit("[Peer]");
    reveal_strlit("PublicKey = ");
    reveal_strlit("PresharedKey = ");
    reveal_strlit("Endpoint = ");
    reveal_strlit("PersistentKeepalive = ");
    reveal_strlit("AllowedApps = ");
    reveal_strlit("AllowedIPs = ");
    reveal_strlit("DisallowedApps = ");
    reveal_strlit("DisallowedIPs = ");
    let p = "DisallowedApps = "@;
    lemma_lit_no_prefix("[Interface]"@, p, 0);
    lemma_label_no_prefix("PrivateKey = "@, t.interface.privateKey, p, 0);
    lemma_pair_no_prefix("Address = "@, t.interface.ipv4Address, t.interface.ipv6Address, p, 0);
    lemma_opt_no_prefix("ListenPort = "@, t.interface.port, p, 0);
    lemma_opt_no_prefix("DNS = "@, t.interface.dns, p, 1);
    lemma_opt_no_prefix("MTU = "@, t.interface.mtu, p, 0);
    lemma_short_no_prefix(Seq::<char>::empty(), p);
    lemma_lit_no_prefix("[Peer]"@, p, 0);
    lemma_label_no_prefix("PublicKey = "@, t.peer.publicKey, p, 0);
    lemma_opt_no_prefix("PresharedKey = "@, t.peer.presharedKey, p, 0);
    lemma_endpoint_no_prefix(t.peer.endpoint, t.peer.port, p, 0);
    lemma_opt_no_prefix("PersistentKeepalive = "@, t.peer.persistentKeepalive, p, 0);
    lemma_pair_no_prefix("AllowedApps = "@, t.rules.allowed.apps, t.rules.allowed.folders, p, 0);
    lemma_opt_no_prefix("AllowedIPs = "@, t.rules.allowed.ipAddresses, p, 0);
    lemma_empty_pair_filter("DisallowedApps = "@, t.rules.disallowed.apps, t.rules.disallowed.folders, has_prefix(p));
    lemma_opt_no_prefix("DisallowedIPs = "@, t.rules.disallowed.ipAddresses, p, 10);
    assert(config_lines(t).filter(has_prefix(p)) =~= Seq::<Seq<char>>::empty());
}

/// With empty disallowed IP ranges, no line of the configuration starts
/// with the disallowed-IPs prefix.
proof fn lemma_no_disallowed_ips_line(t: TunnelView)
    requires
        t.rules.disallowed.ipAddresses.len() == 0,
    ensures
        config_lines(t).filter(has_prefix("DisallowedIPs = "@)) == Seq::<Seq<char>>::empty(),
{
    broadcast use vstd::seq_lib::group_seq_lib_default;

    reveal_strlit("[Interface]");
    reveal_strlit("PrivateKey = ");
    reveal_strlit("Address = ");
    reveal_strlit("ListenPort = ");
    reveal_strlit("DNS = ");
    reveal_strlit("MTU = ");
    reveal_strlit("[Peer]");
    reveal_strlit("PublicKey = ");
    reveal_strlit("PresharedKey = ");
    reveal_strlit("Endpoint = ");
    reveal_strlit("PersistentKeepalive = ");
    reveal_strlit("AllowedApps = ");
    reveal_strlit("AllowedIPs = ");
    reveal_strlit("DisallowedApps = ");
    reveal_strlit("DisallowedIPs = ");
    let p = "DisallowedIPs = "@;
    lemma_lit_no_prefix("[Interface]"@, p, 0);
    lemma_label_no_prefix("PrivateKey = "@, t.interface.privateKey, p, 0);
    lemma_pair_no_prefix("Address = "@, t.interface.ipv4Address, t.interface.ipv6Address, p, 0);
    lemma_opt_no_prefix("ListenPort = "@, t.interface.port, p, 0);
    lemma_opt_no_prefix("DNS = "@, t.interface.dns, p, 1);
    lemma_opt_no_prefix("MTU = "@, t.interface.mtu, p, 0);
    lemma_short_no_prefix(Seq::<char>::empty(), p);
    lemma_lit_no_prefix("[Peer]"@, p, 0);
    lemma_label_no_prefix("PublicKey = "@, t.peer.publicKey, p, 0);
    lemma_opt_no_prefix("PresharedKey = "@, t.peer.presharedKey, p, 0);
    lemma_endpoint_no_prefix(t.peer.endpoint, t.peer.port, p, 0);
    lemma_opt_no_prefix("PersistentKeepalive = "@, t.peer.persistentKeepalive, p, 0);
    lemma_pair_no_prefix("AllowedApps = "@, t.rules.allowed.apps, t.rules.allowed.folders, p, 0);
    lemma_opt_no_prefix("AllowedIPs = "@, t.rules.allowed.ipAddresses, p, 0);
    lemma_pair_no_prefix("DisallowedApps = "@, t.rules.disallowed.apps, t.rules.disallowed.folders, p, 10);
    lemma_empty_opt_filter("DisallowedIPs = "@, t.rules.disallowed.ipAddresses, has_prefix(p));
    assert(config_lines(t).filter(has_prefix(p)) =~= Seq::<Seq<char>>::empty());
}

/// The only blank line of a configuration is the single separator between
/// the `[Interface]` and `[Peer]` sections: optional fields are omitted,
/// never emitted blank.
pub proof fn lemma_single_blank_line(t: TunnelView)
    ensures
        config_lines(t).filter(is_blank()) == seq![Seq::<char>::empty()],
{
    broadcast use vstd::seq_lib::group_seq_lib_default;

    reveal_strlit("[Interface]");
    reveal_strlit("PrivateKey = ");
    reveal_strlit("Address = ");
    reveal_strlit("ListenPort = ");
    reveal_strlit("DNS = ");
    reveal_strlit("MTU = ");
    reveal_strlit("[Peer]");
    reveal_strlit("PublicKey = ");
    reveal_strlit("PresharedKey = ");
    reveal_strlit("Endpoint = ");
    reveal_strlit("PersistentKeepalive = ");
    reveal_strlit("AllowedApps = ");
    reveal_strlit("AllowedIPs = ");
    reveal_strlit("DisallowedApps = ");
    reveal_strlit("DisallowedIPs = ");
    lemma_lit_no_blank("[Interface]"@);
    lemma_label_no_blank("PrivateKey = "@, t.interface.privateKey);
    lemma_pair_no_blank("Address = "@, t.interface.ipv4Address, t.interface.ipv6Address);
    lemma_opt_no_blank("ListenPort = "@, t.interface.port);
    lemma_opt_no_blank("DNS = "@, t.interface.dns);
    lemma_opt_no_blank("MTU = "@, t.interface.mtu);
    lemma_filter_singleton_true(Seq::<char>::empty(), is_blank());
    lemma_lit_no_blank("[Peer]"@);
    lemma_label_no_blank("PublicKey = "@, t.peer.publicKey);
    lemma_opt_no_blank("PresharedKey = "@, t.peer.presharedKey);
    lemma_label_no_blank("Endpoint = "@, t.peer.endpoint + ":"@ + t.peer.port);
    assert("Endpoint = "@ + t.peer.endpoint + ":"@ + t.peer.port =~= "Endpoint = "@ + (
    t.peer.endpoint + ":"@ + t.peer.port));
    lemma_opt_no_blank("PersistentKeepalive = "@, t.peer.persistentKeepalive);
    lemma_pair_no_blank("AllowedApps = "@, t.rules.allowed.apps, t.rules.allowed.folders);
    lemma_opt_no_blank("AllowedIPs = "@, t.rules.allowed.ipAddresses);
    lemma_pair_no_blank(
        "DisallowedApps = "@,
        t.rules.disallowed.apps,
        t.rules.disallowed.folders,
    );
    lemma_opt_no_blank("DisallowedIPs = "@, t.rules.disallowed.ipAddresses);
    assert(config_lines(t).filter(is_blank()) =~= seq![Seq::<char>::empty()]);
}

/// For every optional field that is empty, the corresponding configuration
/// line is absent altogether, rather than emitted with a blank value.
pub proof fn lemma_empty_optionals_omitted(t: TunnelView)
    ensures
        t.interface.port.len() == 0 ==> config_lines(t).filter(has_prefix("ListenPort = "@))
            == Seq::<Seq<char>>::empty(),
        t.interface.dns.len() == 0 ==> config_lines(t).filter(has_prefix("DNS = "@)) == Seq::<
            Seq<char>,
        >::empty(),
        t.interface.mtu.len() == 0 ==> config_lines(t).filter(has_prefix("MTU = "@)) == Seq::<
            Seq<char>,
        >::empty(),
        t.peer.presharedKey.len() == 0 ==> config_lines(t).filter(
            has_prefix("PresharedKey = "@),
        ) == Seq::<Seq<char>>::empty(),
        t.peer.persistentKeepalive.len() == 0 ==> config_lines(t).filter(
            has_prefix("PersistentKeepalive = "@),
        ) == Seq::<Seq<char>>::empty(),
        t.rules.allowed.apps.len() == 0 && t.rules.allowed.folders.len() == 0 ==> config_lines(
            t,
        ).filter(has_prefix("AllowedApps = "@)) == Seq::<Seq<char>>::empty(),
        t.rules.allowed.ipAddresses.len() == 0 ==> config_lines(t).filter(
            has_prefix("AllowedIPs = "@),
        ) == Seq::<Seq<char>>::empty(),
        t.rules.disallowed.apps.len() == 0 && t.rules.disallowed.folders.len() == 0
            ==> config_lines(t).filter(has_prefix("DisallowedApps = "@)) == Seq::<
            Seq<char>,
        >::empty(),
        t.rules.disallowed.ipAddresses.len() == 0 ==> config_lines(t).filter(
            has_prefix("DisallowedIPs = "@),
        ) == Seq::<Seq<char>>::empty(),
{
    if t.interface.port.len() == 0 {
        lemma_no_listen_port_line(t);
    }
    if t.interface.dns.len() == 0 {
        lemma_no_dns_line(t);
    }
    if t.interface.mtu.len() == 0 {
        lemma_no_mtu_line(t);
    }
    if t.peer.presharedKey.len() == 0 {
        lemma_no_preshared_key_line(t);
    }
    if t.peer.persistentKeepalive.len() == 0 {
        lemma_no_keepalive_line(t);
    }
    if t.rules.allowed.apps.len() == 0 && t.rules.allowed.folders.len() == 0 {
        lemma_no_allowed_apps_line(t);
    }
    if t.rules.allowed.ipAddresses.len() == 0 {
        lemma_no_allowed_ips_line(t);
    }
    if t.rules.disallowed.apps.len() == 0 && t.rules.disallowed.folders.len() == 0 {
        lemma_no_disallowed_apps_line(t);
    }
    if t.rules.disallowed.ipAddresses.len() == 0 {
        lemma_no_disallowed_ips_line(t);
    }
}

} // verus!
