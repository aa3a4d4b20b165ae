use vstd::prelude::*;

verus! {

/// The well-known port of the primary protocol family.
pub const DEFAULT_PORT: u16 = 25565;

/// A concrete network endpoint.
#[derive(Debug, Clone, PartialEq, Eq)]
pub struct Endpoint {
    pub host: String,
    pub port: u16,
}

impl View for Endpoint {
    type V = (Seq<char>, u16);

    open spec fn view(&self) -> (Seq<char>, u16) {
        (self.host@, self.port)
    }
}

pub open spec fn is_digit(c: char) -> bool {
    '0' <= c && c <= '9'
}

pub open spec fn all_digits(s: Seq<char>) -> bool {
    forall|i: int| 0 <= i < s.len() ==> #[trigger] is_digit(s[i])
}

/// The decimal value of a string of digits.
pub open spec fn digits_value(s: Seq<char>) -> nat
    decreases s.len(),
{
    if s.len() == 0 {
        0
    } else {
        digits_value(s.drop_last()) * 10 + ((s.last() as nat) - ('0' as nat)) as nat
    }
}

/// Decimal port syntax: an optional `+`, at least one digit, a value that fits in 16 bits.
pub open spec fn parse_port(s: Seq<char>) -> Option<u16> {
    let d = if s.len() > 0 && s[0] == '+' { s.drop_first() } else { s };
    if d.len() > 0 && all_digits(d) && digits_value(d) <= 65535 {
        Some(digits_value(d) as u16)
    } else {
        None
    }
}

/// Index of the last occurrence of `c` in `s`, or -1.
pub open spec fn last_index_of(s: Seq<char>, c: char) -> int
    decreases s.len(),
{
    if s.len() == 0 {
        -1
    } else if s.last() == c {
        s.len() - 1
    } else {
        last_index_of(s.drop_last(), c)
    }
}

/// An address of the form `host:port`, split at its last colon.
pub open spec fn split_port(s: Seq<char>) -> Option<(Seq<char>, u16)> {
    let k = last_index_of(s, ':');
    if k < 0 {
        None
    } else {
        match parse_port(s.subrange(k + 1, s.len() as int)) {
            Some(p) => Some((s.subrange(0, k), p)),
            None => None,
        }
    }
}

/// The endpoint found without a service-discovery lookup, if any.
pub open spec fn resolve_local(address: Seq<char>, port: Option<u16>) -> Option<(Seq<char>, u16)> {
    match port {
        Some(p) => Some((address, p)),
        None => split_port(address),
    }
}

/// The full resolution order, given what the service-discovery lookup returned
/// (empty when it failed or found nothing).
pub open spec fn resolve_spec(
    address: Seq<char>,
    port: Option<u16>,
    candidates: Seq<(Seq<char>, u16)>,
) -> (Seq<char>, u16) {
    match resolve_local(address, port) {
        Some(e) => e,
        None => if candidates.len() > 0 {
            candidates[0]
        } else {
            (address, DEFAULT_PORT)
        },
    }
}

/// The service-discovery name looked up for an address.
pub open spec fn discovery_name_spec(address: Seq<char>) -> Seq<char> {
    "_minecraft._tcp."@ + address
}

proof fn lemma_digits_value_grows(s: Seq<char>, i: int, j: int)
    requires
        0 <= i <= j <= s.len(),
        all_digits(s),
    ensures
        digits_value(s.subrange(0, i)) <= digits_value(s.subrange(0, j)),
    decreases j - i,
{
    if i < j {
        lemma_digits_value_grows(s, i, j - 1);
        assert(s.subrange(0, j).drop_last() =~= s.subrange(0, j - 1));
        assert(is_digit(s[j - 1]));
    }
}

/// Parses decimal port syntax exactly as `parse_port` describes.
pub fn parse_port_str(s: &str) -> (r: Option<u16>)
    ensures
        r == parse_port(s@),
{
    let n = s.unicode_len();
    let mut start: usize = 0;
    if n > 0 && s.get_char(0) == '+' {
        start = 1;
    }
    let ghost d = if s@.len() > 0 && s@[0] == '+' { s@.drop_first() } else { s@ };
    assert(d =~= s@.subrange(start as int, n as int));
    if start == n {
        return None;
    }
    let mut v: u32 = 0;
    let mut i: usize = start;
    while i < n
        invariant
            start <= i <= n,
            n == s@.len(),
            d =~= s@.subrange(start as int, n as int),
            all_digits(d.subrange(0, i - start)),
            v as nat == digits_value(d.subrange(0, i - start)),
            v <= 65535,
            parse_port(s@) == (if d.len() > 0 && all_digits(d) && digits_value(d) <= 65535 {
                Some(digits_value(d) as u16)
            } else {
                None::<u16>
            }),
        decreases n - i,
    {
        let c = s.get_char(i);
        assert(d[i - start] == c);
        if !('0' <= c && c <= '9') {
            assert(!is_digit(d[i - start]));
            assert(!all_digits(d));
            assert(parse_port(s@) is None);
            return None;
        }
        let ghost pre = d.subrange(0, i - start);
        let ghost next = d.subrange(0, i + 1 - start);
        assert(next.drop_last() =~= pre);
        assert(next.last() == c);
        assert(all_digits(next)) by {
            assert forall|k: int| 0 <= k < next.len() implies #[trigger] is_digit(next[k]) by {
                if k < pre.len() {
                    assert(next[k] == pre[k]);
                    assert(is_digit(pre[k]));
                }
            }
        }
        let nv: u32 = v * 10 + ((c as u32) - ('0' as u32));
        assert(nv as nat == digits_value(next));
        if nv > 65535 {
            proof {
                if all_digits(d) {
                    lemma_digits_value_grows(d, i + 1 - start, d.len() as int);
                    assert(d.subrange(0, d.len() as int) =~= d);
                    assert(digits_value(d) > 65535);
                }
                assert(parse_port(s@) is None);
            }
            return None;
        }
        v = nv;
        i = i + 1;
    }
    assert(d.subrange(0, n - start) =~= d);
    Some(v as u16)
}

/// Position of the last `c` in `s`, or `None`.
pub(crate) fn find_last(s: &str, c: char) -> (r: Option<usize>)
    ensures
        match r {
            Some(k) => k as int == last_index_of(s@, c),
            None => last_index_of(s@, c) == -1,
        },
{
    let n = s.unicode_len();
    let mut i: usize = n;
    assert(s@.subrange(0, n as int) =~= s@);
    while i > 0
        invariant
            i <= n,
            n == s@.len(),
            last_index_of(s@, c) == last_index_of(s@.subrange(0, i as int), c),
        decreases i,
    {
        let ghost pre = s@.subrange(0, i as int);
        if s.get_char(i - 1) == c {
            return Some(i - 1);
        }
        assert(pre.drop_last() =~= s@.subrange(0, i - 1));
        i = i - 1;
    }
    None
}

/// Splits `host:port` at the last colon when what follows it is a valid port.
pub fn split_host_port(address: &str) -> (r: Option<Endpoint>)
    ensures
        match r {
            Some(e) => split_port(address@) == Some(e@),
            None => split_port(address@) is None,
        },
{
    proof {
        assert(address@.subrange(0, address@.len() as int) =~= address@);
    }
    match find_last(address, ':') {
        None => None,
        Some(k) => {
            proof { lemma_last_index_bound(address@, ':'); }
            let n = address.unicode_len();
            let port_text = address.substring_char(k + 1, n);
            match parse_port_str(port_text) {
                Some(p) => {
                    let host = String::from_str(address.substring_char(0, k));
                    Some(Endpoint { host, port: p })
                },
                None => None,
            }
        },
    }
}

pub(crate) proof fn lemma_last_index_bound(s: Seq<char>, c: char)
    ensures
        -1 <= last_index_of(s, c) < s.len(),
        last_index_of(s, c) >= 0 ==> s[last_index_of(s, c)] == c,
    decreases s.len(),
{
    if s.len() > 0 && s.last() != c {
        lemma_last_index_bound(s.drop_last(), c);
    }
}

/// The endpoint given by an explicit port or by an embedded `:port` suffix;
/// `None` when a service-discovery lookup is needed.
pub fn resolve_without_lookup(address: &str, port: Option<u16>) -> (r: Option<Endpoint>)
    ensures
        match r {
            Some(e) => resolve_local(address@, port) == Some(e@),
            None => resolve_local(address@, port) is None,
        },
{
    match port {
        Some(p) => Some(Endpoint { host: String::from_str(address), port: p }),
        None => split_host_port(address),
    }
}

/// The name under which the service-discovery record of `address` is looked up.
pub fn discovery_name(address: &str) -> (r: String)
    ensures
        r@ == discovery_name_spec(address@),
{
    let prefix = String::from_str("_minecraft._tcp.");
    proof { reveal_strlit("_minecraft._tcp."); }
    prefix.concat(address)
}

/// The views of a list of endpoints.
pub open spec fn endpoint_views(v: Seq<Endpoint>) -> Seq<(Seq<char>, u16)> {
    v.map_values(|e: Endpoint| e@)
}

/// Resolves an address and optional port override, given the candidates that the
/// service-discovery lookup returned in resolver order (empty when it failed).
/// Never fails: without any signal the default port is used.
pub fn resolve(address: &str, port: Option<u16>, candidates: &Vec<Endpoint>) -> (r: Endpoint)
    ensures
        r@ == resolve_spec(address@, port, endpoint_views(candidates@)),
{
    match resolve_without_lookup(address, port) {
        Some(e) => e,
        None => {
            if candidates.len() > 0 {
                let first = &candidates[0];
                assert(endpoint_views(candidates@)[0] == first@);
                Endpoint { host: first.host.clone(), port: first.port }
            } else {
                Endpoint { host: String::from_str(address), port: DEFAULT_PORT }
            }
        },
    }
}


/// Resolution has no state: the same address, port and lookup answer always give
/// the same endpoint.
pub proof fn resolving_twice_agrees(
    address: Seq<char>,
    port: Option<u16>,
    candidates: Seq<(Seq<char>, u16)>,
    first: (Seq<char>, u16),
    second: (Seq<char>, u16),
)
    requires
        first == resolve_spec(address, port, candidates),
        second == resolve_spec(address, port, candidates),
    ensures
        first == second,
{
}

/// Resolving a resolved endpoint again, with its own port as the override, gives
/// it back unchanged.
pub proof fn resolving_an_endpoint_keeps_it(
    address: Seq<char>,
    port: Option<u16>,
    candidates: Seq<(Seq<char>, u16)>,
    other_candidates: Seq<(Seq<char>, u16)>,
)
    ensures
        ({
            let e = resolve_spec(address, port, candidates);
            resolve_spec(e.0, Some(e.1), other_candidates) == e
        }),
{
}

} // verus!
