//! Resolution of hypertext link targets: messaging links, node pages and
//! downloads.
use vstd::prelude::*;

verus! {

use vstd::string::StrSliceExecFns;
use vstd::string::StringExecFns;
use crate::hashing::{valid_hex, hex_decode_of, hex_decode, lemma_hex_decode_len};
use crate::types::{NodeInfo, to_address, address_eq};

/// What a link target a page names resolves to.
#[derive(Debug)]
pub enum LinkAction {
    /// A page on a known node.
    Navigate { node: NodeInfo, path: String },
    /// A file on a known node, to be saved under its name.
    Download { node: NodeInfo, path: String, filename: String },
    /// A direct-message address.
    Lxmf { hash: [u8; 16] },
    /// Nothing this client can follow.
    Unknown { url: String },
}

/// What str::to_lowercase returns; the result depends on the characters
/// alone.
pub uninterp spec fn lower_of(s: Seq<char>) -> Seq<char>;

/// Relies on str::to_lowercase; an empty text stays empty.
#[verifier::external_body]
fn lowercase(s: &str) -> (r: String)
    ensures
        r@ == lower_of(s@),
        s@.len() == 0 ==> r@.len() == 0,
{
    s.to_lowercase()
}

/// A path with a leading slash, adding one if missing.
pub open spec fn normalize_of(p: Seq<char>) -> Seq<char> {
    if p.len() > 0 && p[0] == '/' {
        p
    } else {
        seq!['/'] + p
    }
}

pub fn normalize_path(path: &str) -> (r: String)
    ensures
        r@ == normalize_of(path@),
{
    proof {
        reveal_strlit("/");
    }
    if path.unicode_len() > 0 && path.get_char(0) == '/' {
        path.to_owned()
    } else {
        let mut s = String::from_str("/");
        assert(s@ =~= seq!['/']);
        s.append(path);
        s
    }
}

/// The index of the first colon, or a negative value if there is none.
pub open spec fn first_colon_index(u: Seq<char>) -> int
    decreases u.len(),
{
    if u.len() == 0 {
        -1
    } else if u[0] == ':' {
        0
    } else {
        let r = first_colon_index(u.drop_first());
        if r < 0 {
            -1
        } else {
            r + 1
        }
    }
}

proof fn lemma_first_colon_at(u: Seq<char>, i: int)
    requires
        0 <= i < u.len(),
        u[i] == ':',
        forall|j: int| 0 <= j < i ==> u[j] != ':',
    ensures
        first_colon_index(u) == i,
    decreases i,
{
    if i > 0 {
        lemma_first_colon_at(u.drop_first(), i - 1);
    }
}

proof fn lemma_no_colon(u: Seq<char>)
    requires
        forall|j: int| 0 <= j < u.len() ==> u[j] != ':',
    ensures
        first_colon_index(u) < 0,
    decreases u.len(),
{
    if u.len() > 0 {
        lemma_no_colon(u.drop_first());
    }
}

/// The index of the last dot, or a negative value if there is none.
pub open spec fn last_dot_index(p: Seq<char>) -> int
    decreases p.len(),
{
    if p.len() == 0 {
        -1
    } else if p.last() == '.' {
        p.len() - 1
    } else {
        last_dot_index(p.drop_last())
    }
}

proof fn lemma_last_dot_at(p: Seq<char>, i: int)
    requires
        0 <= i < p.len(),
        p[i] == '.',
        forall|j: int| i < j < p.len() ==> p[j] != '.',
    ensures
        last_dot_index(p) == i,
    decreases p.len(),
{
    if i < p.len() - 1 {
        lemma_last_dot_at(p.drop_last(), i);
    }
}

proof fn lemma_no_dot(p: Seq<char>)
    requires
        forall|j: int| 0 <= j < p.len() ==> p[j] != '.',
    ensures
        last_dot_index(p) < 0,
    decreases p.len(),
{
    if p.len() > 0 {
        lemma_no_dot(p.drop_last());
    }
}

/// The index of the last slash, or a negative value if there is none.
pub open spec fn last_slash_index(p: Seq<char>) -> int
    decreases p.len(),
{
    if p.len() == 0 {
        -1
    } else if p.last() == '/' {
        p.len() - 1
    } else {
        last_slash_index(p.drop_last())
    }
}

proof fn lemma_last_slash_at(p: Seq<char>, i: int)
    requires
        0 <= i < p.len(),
        p[i] == '/',
        forall|j: int| i < j < p.len() ==> p[j] != '/',
    ensures
        last_slash_index(p) == i,
    decreases p.len(),
{
    if i < p.len() - 1 {
        lemma_last_slash_at(p.drop_last(), i);
    }
}

proof fn lemma_no_slash(p: Seq<char>)
    requires
        forall|j: int| 0 <= j < p.len() ==> p[j] != '/',
    ensures
        last_slash_index(p) < 0,
    decreases p.len(),
{
    if p.len() > 0 {
        lemma_no_slash(p.drop_last());
    }
}

/// A page path names a download when it carries an extension and the
/// extension, lower-cased, is none of the hypertext ones.
pub open spec fn download_path(p: Seq<char>) -> bool {
    last_dot_index(p) >= 0 && {
        let ext = lower_of(p.skip(last_dot_index(p) + 1));
        ext.len() > 0 && ext != "mu"@ && ext != "md"@ && ext != "micron"@
    }
}

/// Compare two texts character by character.
pub fn str_eq(a: &str, b: &str) -> (r: bool)
    ensures
        r <==> a@ == b@,
{
    let n = a.unicode_len();
    if n != b.unicode_len() {
        assert(a@.len() != b@.len());
        return false;
    }
    let mut i: usize = 0;
    while i < n
        invariant
            n == a@.len() == b@.len(),
            i <= n,
            forall|j: int| 0 <= j < i ==> a@[j] == b@[j],
        decreases n - i,
    {
        if a.get_char(i) != b.get_char(i) {
            return false;
        }
        i = i + 1;
    }
    assert(a@ =~= b@);
    true
}

/// Whether this path names a file to download rather than a page to render.
pub fn is_download_path(path: &str) -> (r: bool)
    ensures
        r == download_path(path@),
{
    let n = path.unicode_len();
    let mut last_dot: usize = 0;
    let mut found = false;
    let mut i: usize = 0;
    while i < n
        invariant
            n == path@.len(),
            i <= n,
            found ==> last_dot < i && path@[last_dot as int] == '.' && (forall|j: int|
                last_dot < j < i ==> path@[j] != '.'),
            !found ==> forall|j: int| 0 <= j < i ==> path@[j] != '.',
        decreases n - i,
    {
        if path.get_char(i) == '.' {
            last_dot = i;
            found = true;
        }
        i = i + 1;
    }
    if !found {
        proof {
            lemma_no_dot(path@);
        }
        return false;
    }
    proof {
        lemma_last_dot_at(path@, last_dot as int);
    }
    let ext = path.substring_char(last_dot + 1, n);
    let ext_lower = lowercase(ext);
    if ext_lower.as_str().unicode_len() == 0 {
        return false;
    }
    let not_micron = !str_eq(ext_lower.as_str(), "mu") && !str_eq(ext_lower.as_str(), "md")
        && !str_eq(ext_lower.as_str(), "micron");
    not_micron
}

/// The text after the last slash: the name a download is saved under.
pub open spec fn filename_of(p: Seq<char>) -> Seq<char> {
    if last_slash_index(p) >= 0 {
        p.skip(last_slash_index(p) + 1)
    } else {
        p
    }
}

pub fn extract_filename(path: &str) -> (r: String)
    ensures
        r@ == filename_of(path@),
{
    let n = path.unicode_len();
    let mut last_slash: usize = 0;
    let mut found = false;
    let mut i: usize = 0;
    while i < n
        invariant
            n == path@.len(),
            i <= n,
            found ==> last_slash < i && path@[last_slash as int] == '/' && (forall|j: int|
                last_slash < j < i ==> path@[j] != '/'),
            !found ==> forall|j: int| 0 <= j < i ==> path@[j] != '/',
        decreases n - i,
    {
        if path.get_char(i) == '/' {
            last_slash = i;
            found = true;
        }
        i = i + 1;
    }
    if !found {
        proof {
            lemma_no_slash(path@);
        }
        assert(path@.skip(0) =~= path@);
        return path.to_owned();
    }
    proof {
        lemma_last_slash_at(path@, last_slash as int);
    }
    let tail = path.substring_char(last_slash + 1, n);
    tail.to_owned()
}

/// The direct-message address named by an `lxmf@<32 hex digits>` link.
pub open spec fn lxmf_target(url: Seq<char>) -> Option<Seq<u8>> {
    if url.len() == 37 && url.take(5) == "lxmf@"@ && valid_hex(url.skip(5)) {
        Some(hex_decode_of(url.skip(5)))
    } else {
        None
    }
}

fn parse_lxmf_link(url: &str) -> (r: Option<[u8; 16]>)
    ensures
        r is Some <==> lxmf_target(url@) is Some,
        r matches Some(h) ==> h@ == lxmf_target(url@)->Some_0,
{
    proof {
        reveal_strlit("lxmf@");
    }
    let n = url.unicode_len();
    if n != 37 {
        return None;
    }
    let prefix = url.substring_char(0, 5);
    if !str_eq(prefix, "lxmf@") {
        assert(url@.take(5) != "lxmf@"@);
        return None;
    }
    assert(url@.take(5) =~= prefix@);
    let rest = url.substring_char(5, n);
    assert(rest@ =~= url@.skip(5));
    match hex_decode(rest) {
        Some(bytes) => {
            proof {
                lemma_hex_decode_len(rest@);
            }
            Some(to_address(&bytes))
        },
        None => None,
    }
}

/// The first node in the list carrying this address.
pub open spec fn find_node(nodes: Seq<NodeInfo>, hash: Seq<u8>) -> Option<NodeInfo>
    decreases nodes.len(),
{
    if nodes.len() == 0 {
        None
    } else if nodes[0].hash@ == hash {
        Some(nodes[0])
    } else {
        find_node(nodes.drop_first(), hash)
    }
}

proof fn lemma_find_node_at(nodes: Seq<NodeInfo>, i: int)
    requires
        0 <= i < nodes.len(),
        forall|j: int| 0 <= j < i ==> nodes[j].hash@ != nodes[i].hash@,
    ensures
        find_node(nodes, nodes[i].hash@) == Some(nodes[i]),
    decreases i,
{
    if i > 0 {
        lemma_find_node_at(nodes.drop_first(), i - 1);
    }
}

proof fn lemma_find_node_none(nodes: Seq<NodeInfo>, hash: Seq<u8>)
    requires
        forall|j: int| 0 <= j < nodes.len() ==> (#[trigger] nodes[j]).hash@ != hash,
    ensures
        find_node(nodes, hash) is None,
    decreases nodes.len(),
{
    if nodes.len() > 0 {
        lemma_find_node_none(nodes.drop_first(), hash);
    }
}

/// Two node records carrying the same data.
pub open spec fn node_like(a: NodeInfo, b: NodeInfo) -> bool {
    a.hash == b.hash && a.name@ == b.name@ && a.identity == b.identity
}

/// Where a node link leads: `:`-prefixed paths stay on the current node, a
/// 32-hex-digit prefix before a colon names a node, anything else is a path
/// on the current node.
pub open spec fn spec_resolve_node_link(
    url: Seq<char>,
    current: Option<NodeInfo>,
    knowns: Seq<NodeInfo>,
) -> Option<(NodeInfo, Seq<char>)> {
    if url.len() > 0 && url[0] == ':' {
        match current {
            Some(n) => Some((n, normalize_of(url.skip(1)))),
            None => None,
        }
    } else if first_colon_index(url) >= 0 && url.take(first_colon_index(url)).len() == 32
        && valid_hex(url.take(first_colon_index(url))) {
        let target = hex_decode_of(url.take(first_colon_index(url)));
        let rest = url.skip(first_colon_index(url) + 1);
        match find_node(knowns, target) {
            Some(n) => Some((n, normalize_of(rest))),
            None => match current {
                Some(c) => if c.hash@ == target {
                    Some((c, normalize_of(rest)))
                } else {
                    resolve_fallback(url, current)
                },
                None => resolve_fallback(url, current),
            },
        }
    } else {
        resolve_fallback(url, current)
    }
}

/// The default: the whole link is a path on the current node.
pub open spec fn resolve_fallback(url: Seq<char>, current: Option<NodeInfo>) -> Option<
    (NodeInfo, Seq<char>),
> {
    match current {
        Some(n) => Some((n, normalize_of(url))),
        None => None,
    }
}

#[verifier::loop_isolation(false)]
fn resolve_node_link(link_url: &str, current_node: Option<&NodeInfo>, known_nodes: &[NodeInfo]) -> (r:
    Option<(NodeInfo, String)>)
    ensures
        r is Some <==> spec_resolve_node_link(
            link_url@,
            match current_node {
                Some(n) => Some(*n),
                None => None,
            },
            known_nodes@,
        ) is Some,
        r matches Some((n, p)) ==> (spec_resolve_node_link(
            link_url@,
            match current_node {
                Some(c) => Some(*c),
                None => None,
            },
            known_nodes@,
        ) matches Some((n2, p2)) && node_like(n, n2) && p@ == p2),
{
    let ghost cur: Option<NodeInfo> = match current_node {
        Some(n) => Some(*n),
        None => None,
    };
    let n = link_url.unicode_len();
    if n > 0 && link_url.get_char(0) == ':' {
        let node = match current_node {
            Some(c) => c.clone(),
            None => {
                return None;
            },
        };
        let rest = link_url.substring_char(1, n);
        assert(rest@ =~= link_url@.skip(1));
        return Some((node, normalize_path(rest)));
    }
    // Find the first colon.
    let mut colon: usize = 0;
    let mut found = false;
    let mut i: usize = 0;
    while i < n
        invariant
            n == link_url@.len(),
            i <= n,
            found ==> colon < i && link_url@[colon as int] == ':' && (forall|j: int|
                0 <= j < colon ==> link_url@[j] != ':'),
            !found ==> forall|j: int| 0 <= j < i ==> link_url@[j] != ':',
        decreases n - i,
    {
        if !found && link_url.get_char(i) == ':' {
            colon = i;
            found = true;
        }
        i = i + 1;
    }
    proof {
        if found {
            lemma_first_colon_at(link_url@, colon as int);
        } else {
            lemma_no_colon(link_url@);
        }
    }
    if found && colon == 32 {
        let prefix = link_url.substring_char(0, 32);
        assert(prefix@ =~= link_url@.take(32));
        if let Some(bytes) = hex_decode(prefix) {
            proof {
                lemma_hex_decode_len(prefix@);
            }
            let target = to_address(&bytes);
            let rest = link_url.substring_char(colon + 1, n);
            assert(rest@ =~= link_url@.skip(colon + 1));
            // Search the known nodes for the address.
            let m = known_nodes.len();
            let mut k: usize = 0;
            while k < m
                invariant
                    m == known_nodes@.len(),
                    k <= m,
                    target@ == hex_decode_of(link_url@.take(32)),
                    forall|j: int| 0 <= j < k ==> known_nodes@[j].hash@ != target@,
                decreases m - k,
            {
                if address_eq(&known_nodes[k].hash, &target) {
                    assert(known_nodes@[k as int].hash@ =~= target@);
                    proof {
                        lemma_find_node_at(known_nodes@, k as int);
                    }
                    return Some((known_nodes[k].clone(), normalize_path(rest)));
                }
                k = k + 1;
            }
            proof {
                lemma_find_node_none(known_nodes@, target@);
            }
            if let Some(c) = current_node {
                if address_eq(&c.hash, &target) {
                    assert(c.hash@ =~= target@);
                    return Some((c.clone(), normalize_path(rest)));
                }
            }
        }
    }
    // Fall back to a path on the current node.
    match current_node {
        Some(c) => Some((c.clone(), normalize_path(link_url))),
        None => None,
    }
}

/// Resolve one link target: a messaging address, a page or download on a
/// node, or something this client cannot follow.
pub fn resolve_link(link_url: &str, current_node: Option<&NodeInfo>, known_nodes: &[NodeInfo]) -> (r:
    LinkAction)
    ensures
        lxmf_target(link_url@) matches Some(t) ==> (r matches LinkAction::Lxmf { hash } && hash@
            == t),
        lxmf_target(link_url@) is None ==> {
            let resolved = spec_resolve_node_link(
                link_url@,
                match current_node {
                    Some(n) => Some(*n),
                    None => None,
                },
                known_nodes@,
            );
            &&& (resolved matches Some((n2, p2)) ==> {
                &&& (download_path(p2) ==> (r matches LinkAction::Download { node, path, filename }
                    && node_like(node, n2) && path@ == p2 && filename@ == filename_of(p2)))
                &&& (!download_path(p2) ==> (r matches LinkAction::Navigate { node, path }
                    && node_like(node, n2) && path@ == p2))
            })
            &&& (resolved is None ==> (r matches LinkAction::Unknown { url } && url@
                == link_url@))
        },
{
    if let Some(hash) = parse_lxmf_link(link_url) {
        return LinkAction::Lxmf { hash };
    }
    match resolve_node_link(link_url, current_node, known_nodes) {
        Some((node, path)) => {
            if is_download_path(path.as_str()) {
                let filename = extract_filename(path.as_str());
                LinkAction::Download { node, path, filename }
            } else {
                LinkAction::Navigate { node, path }
            }
        },
        None => LinkAction::Unknown { url: link_url.to_owned() },
    }
}

} // verus!
