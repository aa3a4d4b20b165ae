use vstd::prelude::*;
use crate::string_map::StringMap;

verus! {

pub open spec fn is_flag(a: Seq<char>) -> bool {
    a.len() >= 2 && a[0] == '-' && a[1] == '-'
}

/// Reading a command line in order: the options read so far and the flag still
/// waiting for its value. A flag `--name` names the next argument that is not a
/// flag; a later value for the same name wins.
pub open spec fn scan_args(cmd: Seq<String>) -> (Map<Seq<char>, Seq<char>>, Option<Seq<char>>)
    decreases cmd.len(),
{
    if cmd.len() == 0 {
        (Map::empty(), None)
    } else {
        let (m, pending) = scan_args(cmd.drop_last());
        let a = cmd.last()@;
        if is_flag(a) {
            (m, Some(a.subrange(2, a.len() as int)))
        } else {
            match pending {
                Some(k) => (m.insert(k, a), None),
                None => (m, None),
            }
        }
    }
}

/// The options of a game client's command line, when it names a uuid, an access
/// token and a user name.
pub open spec fn launch_args(cmd: Seq<String>) -> Option<Map<Seq<char>, Seq<char>>> {
    let m = scan_args(cmd).0;
    if m.contains_key("uuid"@) && m.contains_key("accessToken"@) && m.contains_key("username"@) {
        Some(m)
    } else {
        None
    }
}

fn starts_with_dashes(a: &str) -> (r: bool)
    ensures
        r == is_flag(a@),
{
    a.unicode_len() >= 2 && a.get_char(0) == '-' && a.get_char(1) == '-'
}

/// Reads the `--name value` options of a command line; `None` unless `uuid`,
/// `accessToken` and `username` are all among them.
pub fn parse_minecraft_args(cmd: &[String]) -> (r: Option<StringMap>)
    ensures
        match launch_args(cmd@) {
            Some(m) => r is Some && r->Some_0.wf() && r->Some_0@ == m,
            None => r is None,
        },
{
    let mut args = StringMap::new();
    let mut current_key: Option<String> = None;
    let mut i: usize = 0;
    while i < cmd.len()
        invariant
            i <= cmd@.len(),
            args.wf(),
            scan_args(cmd@.subrange(0, i as int)) == (args@, match current_key {
                Some(k) => Some(k@),
                None => None::<Seq<char>>,
            }),
        decreases cmd@.len() - i,
    {
        assert(cmd@.subrange(0, i + 1).drop_last() =~= cmd@.subrange(0, i as int));
        let arg = &cmd[i];
        if starts_with_dashes(arg.as_str()) {
            let n = arg.as_str().unicode_len();
            current_key = Some(String::from_str(arg.as_str().substring_char(2, n)));
        } else {
            match current_key {
                Some(key) => {
                    args.insert(key, arg.clone());
                    current_key = None;
                },
                None => {},
            }
        }
        i = i + 1;
    }
    assert(cmd@.subrange(0, cmd@.len() as int) =~= cmd@);
    if args.contains_key("uuid") && args.contains_key("accessToken") && args.contains_key(
        "username",
    ) {
        Some(args)
    } else {
        None
    }
}


/// The launch credentials of a running game client.
#[derive(Debug, Clone)]
pub struct MinecraftCredentials {
    pub uuid: String,
    pub access_token: String,
    pub username: String,
    pub game_dir: String,
    pub client_id: String,
    pub xuid: String,
    pub user_type: String,
}

/// The value under `k`, or the empty text when there is none.
pub open spec fn value_or_empty(m: Map<Seq<char>, Seq<char>>, k: Seq<char>) -> Seq<char> {
    if m.contains_key(k) {
        m[k]
    } else {
        Seq::empty()
    }
}

pub open spec fn credentials_of(m: Map<Seq<char>, Seq<char>>, c: MinecraftCredentials) -> bool {
    &&& c.uuid@ == value_or_empty(m, "uuid"@)
    &&& c.access_token@ == value_or_empty(m, "accessToken"@)
    &&& c.username@ == value_or_empty(m, "username"@)
    &&& c.game_dir@ == value_or_empty(m, "gameDir"@)
    &&& c.client_id@ == value_or_empty(m, "clientId"@)
    &&& c.xuid@ == value_or_empty(m, "xuid"@)
    &&& c.user_type@ == value_or_empty(m, "userType"@)
}

fn value_or_empty_of(args: &StringMap, key: &str) -> (r: String)
    requires
        args.wf(),
    ensures
        r@ == value_or_empty(args@, key@),
{
    match args.get(key) {
        Some(v) => v.clone(),
        None => String::new(),
    }
}

/// The credentials named by a client's options; a missing option reads as empty.
pub fn credentials_from_args(args: &StringMap) -> (r: MinecraftCredentials)
    requires
        args.wf(),
    ensures
        credentials_of(args@, r),
{
    MinecraftCredentials {
        uuid: value_or_empty_of(args, "uuid"),
        access_token: value_or_empty_of(args, "accessToken"),
        username: value_or_empty_of(args, "username"),
        game_dir: value_or_empty_of(args, "gameDir"),
        client_id: value_or_empty_of(args, "clientId"),
        xuid: value_or_empty_of(args, "xuid"),
        user_type: value_or_empty_of(args, "userType"),
    }
}

/// `p` occurs in `s`.
pub open spec fn has_substring(s: Seq<char>, p: Seq<char>) -> bool {
    exists|i: int| 0 <= i && i + p.len() <= s.len() && #[trigger] s.subrange(i, i + p.len()) == p
}

/// Whether `p` occurs in `s`.
pub fn contains_str(s: &str, p: &str) -> (r: bool)
    ensures
        r == has_substring(s@, p@),
{
    let n = s.unicode_len();
    let m = p.unicode_len();
    if m > n {
        return false;
    }
    if m == 0 {
        assert(s@.subrange(0int, 0int + p@.len()) =~= p@);
        return true;
    }
    let target = String::from_str(p);
    let mut i: usize = 0;
    while i <= n - m
        invariant
            0 < m <= n,
            i <= n - m + 1,
            n == s@.len(),
            m == p@.len(),
            target@ == p@,
            forall|j: int| 0 <= j < i ==> #[trigger] s@.subrange(j, j + m) != p@,
        decreases n - m + 1 - i,
    {
        let window = String::from_str(s.substring_char(i, i + m));
        if window == target {
            return true;
        }
        i = i + 1;
    }
    proof {
        assert forall|j: int| 0 <= j && j + p@.len() <= s@.len() implies #[trigger] s@.subrange(
            j,
            j + p@.len(),
        ) != p@ by {
            assert(j < i);
        }
    }
    false
}

/// The name and command line of a running process.
pub open spec fn is_client_process(name: Seq<char>) -> bool {
    has_substring(name, "javaw"@)
}

/// The first process, in the order given, that is a game client whose command line
/// carries credentials, with those credentials' options.
pub open spec fn first_client(procs: Seq<(String, Vec<String>)>) -> Option<Map<Seq<char>, Seq<char>>>
    decreases procs.len(),
{
    if procs.len() == 0 {
        None
    } else if is_client_process(procs[0].0@) && launch_args(procs[0].1@) is Some {
        launch_args(procs[0].1@)
    } else {
        first_client(procs.drop_first())
    }
}

/// Looks through running processes, given as name and command line, for the first
/// game client whose command line carries credentials.
pub fn find_credentials(procs: &Vec<(String, Vec<String>)>) -> (r: Option<MinecraftCredentials>)
    ensures
        match first_client(procs@) {
            Some(m) => r is Some && credentials_of(m, r->Some_0),
            None => r is None,
        },
{
    let mut i: usize = 0;
    assert(procs@.subrange(0, procs@.len() as int) =~= procs@);
    while i < procs.len()
        invariant
            i <= procs@.len(),
            first_client(procs@) == first_client(procs@.subrange(i as int, procs@.len() as int)),
        decreases procs@.len() - i,
    {
        let ghost rest = procs@.subrange(i as int, procs@.len() as int);
        assert(rest.drop_first() =~= procs@.subrange(i + 1, procs@.len() as int));
        assert(rest[0] == procs@[i as int]);
        let name = &procs[i].0;
        if contains_str(name.as_str(), "javaw") {
            match parse_minecraft_args(procs[i].1.as_slice()) {
                Some(args) => {
                    return Some(credentials_from_args(&args));
                },
                None => {},
            }
        }
        i = i + 1;
    }
    None
}

/// The settings under which credentials are remembered, as key and value.
pub open spec fn credential_entries(c: MinecraftCredentials) -> Seq<(Seq<char>, Seq<char>)> {
    seq![
        ("minecraft_uuid"@, c.uuid@),
        ("minecraft_access_token"@, c.access_token@),
        ("minecraft_username"@, c.username@),
        ("minecraft_game_dir"@, c.game_dir@),
        ("minecraft_client_id"@, c.client_id@),
        ("minecraft_xuid"@, c.xuid@),
        ("minecraft_user_type"@, c.user_type@),
    ]
}

fn entry(key: &str, value: &String) -> (r: (String, String))
    ensures
        r.0@ == key@,
        r.1@ == value@,
{
    (String::from_str(key), value.clone())
}

/// The settings to store for found credentials, in order.
pub fn credential_settings(c: &MinecraftCredentials) -> (r: Vec<(String, String)>)
    ensures
        r@.len() == 7,
        forall|i: int| 0 <= i < 7 ==> (#[trigger] r@[i]).0@ == credential_entries(*c)[i].0
            && r@[i].1@ == credential_entries(*c)[i].1,
{
    let mut r: Vec<(String, String)> = Vec::new();
    r.push(entry("minecraft_uuid", &c.uuid));
    r.push(entry("minecraft_access_token", &c.access_token));
    r.push(entry("minecraft_username", &c.username));
    r.push(entry("minecraft_game_dir", &c.game_dir));
    r.push(entry("minecraft_client_id", &c.client_id));
    r.push(entry("minecraft_xuid", &c.xuid));
    r.push(entry("minecraft_user_type", &c.user_type));
    r
}

} // verus!
