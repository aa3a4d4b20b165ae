use vstd::prelude::*;
use crate::error::Error;

verus! {

/// How many levels of nested text a status description may have.
pub const MAX_TEXT_DEPTH: usize = 64;

/// A fragment of rich text: its literal text and its child fragments, in order.
#[derive(Debug)]
pub struct TextNode {
    pub text: String,
    pub children: Vec<TextNode>,
}

/// The protocol family that answered a probe.
#[derive(Debug, Clone, Copy, PartialEq, Eq)]
pub enum ServerType {
    /// The primary family.
    Java,
    /// The secondary family.
    Bedrock,
}

/// A status response as received from a server, before decoding.
#[derive(Debug)]
pub struct RawResponse {
    pub description: TextNode,
    pub version: String,
    pub online_players: u32,
    pub max_players: u32,
    pub sample: Option<Vec<String>>,
    pub favicon: Option<Vec<u8>>,
}

/// The display-ready summary of a server that answered.
#[derive(Debug, Clone)]
pub struct ServerMetadata {
    pub name: String,
    pub motd: String,
    pub version: String,
    pub player_count: u32,
    pub max_players: u32,
    pub players: Vec<String>,
    pub favicon_url: Option<String>,
    pub is_online: bool,
    /// Milliseconds taken by the successful probe.
    pub latency: u64,
    pub server_type: ServerType,
}

/// Pre-order text of a node, allowing `depth` levels; `None` when nested deeper.
pub open spec fn flat_node(n: TextNode, depth: nat) -> Option<Seq<char>>
    decreases depth, 0int,
{
    if depth == 0 {
        None
    } else {
        match flat_list(n.children@, (depth - 1) as nat, n.children@.len()) {
            Some(t) => Some(n.text@ + t),
            None => None,
        }
    }
}

/// Concatenated text of the first `k` nodes of `s`, each allowing `depth` levels.
pub open spec fn flat_list(s: Seq<TextNode>, depth: nat, k: nat) -> Option<Seq<char>>
    decreases depth, k + 1,
{
    if k == 0 {
        Some(Seq::empty())
    } else {
        match (flat_list(s, depth, (k - 1) as nat), flat_node(s[k - 1], depth)) {
            (Some(a), Some(b)) => Some(a + b),
            _ => None,
        }
    }
}

/// The flattened text of a description, within the nesting bound.
pub open spec fn flat_text(n: TextNode) -> Option<Seq<char>> {
    flat_node(n, MAX_TEXT_DEPTH as nat)
}

proof fn lemma_flat_list_stays_none(s: Seq<TextNode>, depth: nat, k: nat, k2: nat)
    requires
        k <= k2,
        flat_list(s, depth, k) is None,
    ensures
        flat_list(s, depth, k2) is None,
    decreases k2 - k,
{
    if k < k2 {
        lemma_flat_list_stays_none(s, depth, k, (k2 - 1) as nat);
    }
}

fn flatten_node(n: &TextNode, depth: usize) -> (r: Option<String>)
    ensures
        match r {
            Some(t) => flat_node(*n, depth as nat) == Some(t@),
            None => flat_node(*n, depth as nat) is None,
        },
    decreases depth,
{
    if depth == 0 {
        return None;
    }
    let mut acc = String::new();
    let mut i: usize = 0;
    while i < n.children.len()
        invariant
            0 < depth,
            i <= n.children@.len(),
            flat_list(n.children@, (depth - 1) as nat, i as nat) == Some(acc@),
        decreases n.children@.len() - i,
    {
        match flatten_node(&n.children[i], depth - 1) {
            Some(t) => {
                acc.append(t.as_str());
            },
            None => {
                proof {
                    lemma_flat_list_stays_none(
                        n.children@,
                        (depth - 1) as nat,
                        (i + 1) as nat,
                        n.children@.len(),
                    );
                }
                return None;
            },
        }
        i = i + 1;
    }
    let mut out = n.text.clone();
    out.append(acc.as_str());
    Some(out)
}

/// The text of a description: each node's own text followed by the text of its
/// children in order, no separator. Fails with `ProtocolFailed` past the nesting bound.
pub fn extract_chat_text(n: &TextNode) -> (r: Result<String, Error>)
    ensures
        match flat_text(*n) {
            Some(t) => r is Ok && r->Ok_0@ == t,
            None => r is Err && r->Err_0 is ProtocolFailed,
        },
{
    match flatten_node(n, MAX_TEXT_DEPTH) {
        Some(t) => Ok(t),
        None => Err(Error::ProtocolFailed(String::from_str("description nested too deeply"))),
    }
}

/// The standard base64 text (with padding) of a byte string.
pub uninterp spec fn base64_of(b: Seq<u8>) -> Seq<char>;

/// Relies on base64::encode: the standard, padded base64 text of the bytes.
#[verifier::external_body]
fn encode_base64(b: &Vec<u8>) -> (r: String)
    ensures
        r@ == base64_of(b@),
{
    #[allow(deprecated)]
    base64::encode(b)
}

pub open spec fn data_url_spec(encoded: Seq<char>) -> Seq<char> {
    "data:image/png;base64,"@ + encoded
}

/// A self-describing PNG reference around already-encoded base64 text.
pub fn png_data_url(encoded: &str) -> (r: String)
    ensures
        r@ == data_url_spec(encoded@),
{
    let prefix = String::from_str("data:image/png;base64,");
    proof { reveal_strlit("data:image/png;base64,"); }
    prefix.concat(encoded)
}

/// The favicon reference for icon bytes: unset when absent or empty.
pub open spec fn favicon_spec(icon: Option<Seq<u8>>) -> Option<Seq<char>> {
    match icon {
        Some(b) => if b.len() > 0 { Some(data_url_spec(base64_of(b))) } else { None },
        None => None,
    }
}

pub open spec fn opt_view(s: Option<String>) -> Option<Seq<char>> {
    match s {
        Some(t) => Some(t@),
        None => None,
    }
}

pub open spec fn opt_bytes(b: Option<Vec<u8>>) -> Option<Seq<u8>> {
    match b {
        Some(v) => Some(v@),
        None => None,
    }
}

/// Encodes icon bytes as a PNG data reference; no reference for absent or empty bytes.
pub fn favicon_url(icon: &Option<Vec<u8>>) -> (r: Option<String>)
    ensures
        opt_view(r) == favicon_spec(opt_bytes(*icon)),
{
    match icon {
        Some(b) => {
            if b.len() > 0 {
                let encoded = encode_base64(b);
                Some(png_data_url(encoded.as_str()))
            } else {
                None
            }
        },
        None => None,
    }
}

/// Icon bytes that are present and non-empty give a reference that begins with the
/// PNG data prefix; absent or empty bytes give none.
pub proof fn favicon_reference_shape(icon: Option<Seq<u8>>)
    ensures
        (icon is Some && icon->0.len() > 0) ==> {
            &&& favicon_spec(icon) is Some
            &&& favicon_spec(icon)->0.len() >= 22
            &&& favicon_spec(icon)->0.subrange(0, 22) == "data:image/png;base64,"@
        },
        !(icon is Some && icon->0.len() > 0) ==> favicon_spec(icon) is None,
{
    reveal_strlit("data:image/png;base64,");
    if icon is Some && icon->0.len() > 0 {
        let r = data_url_spec(base64_of(icon->0));
        assert(r.subrange(0, 22) =~= "data:image/png;base64,"@);
    }
}

/// The players of a sample, in received order; none when the sample is absent.
pub open spec fn sample_spec(sample: Option<Vec<String>>) -> Seq<String> {
    match sample {
        Some(v) => v@,
        None => Seq::empty(),
    }
}

/// Whether the description of a response can be flattened.
pub open spec fn decodable(raw: RawResponse) -> bool {
    flat_text(raw.description) is Some
}

/// `m` is the summary of the decodable response `raw`, probed in `latency` ms.
pub open spec fn decodes_to(raw: RawResponse, latency: u64, family: ServerType, m: ServerMetadata) -> bool {
    &&& m.name@ == raw.version@
    &&& Some(m.motd@) == flat_text(raw.description)
    &&& m.version@ == raw.version@
    &&& m.player_count == raw.online_players
    &&& m.max_players == raw.max_players
    &&& m.players@ == sample_spec(raw.sample)
    &&& opt_view(m.favicon_url) == favicon_spec(opt_bytes(raw.favicon))
    &&& m.is_online
    &&& m.latency == latency
    &&& m.server_type == family
}

/// Turns a raw response into its summary. Fails with `ProtocolFailed` only when
/// the description is nested past the bound.
pub fn decode(raw: RawResponse, latency: u64, family: ServerType) -> (r: Result<ServerMetadata, Error>)
    ensures
        decodable(raw) ==> r is Ok && decodes_to(raw, latency, family, r->Ok_0),
        !decodable(raw) ==> r is Err && r->Err_0 is ProtocolFailed,
{
    let motd = match extract_chat_text(&raw.description) {
        Ok(t) => t,
        Err(e) => {
            return Err(e);
        },
    };
    let favicon_url = favicon_url(&raw.favicon);
    let players = match raw.sample {
        Some(v) => v,
        None => Vec::new(),
    };
    Ok(ServerMetadata {
        name: raw.version.clone(),
        motd,
        version: raw.version,
        player_count: raw.online_players,
        max_players: raw.max_players,
        players,
        favicon_url,
        is_online: true,
        latency,
        server_type: family,
    })
}

} // verus!
