use vstd::prelude::*;
use vstd::string::StringExecFns;

verus! {

/// One configured dictionary file.
#[derive(Debug, Clone)]
pub struct MdxFile {
    pub path: String,
    pub enabled: bool,
    pub language: Option<String>,
}

/// Where the HTTP surface listens.
#[derive(Debug, Clone)]
pub struct ServerConfig {
    pub port: u16,
    pub host: String,
}

/// Where static assets are served from.
#[derive(Debug, Clone)]
pub struct StaticFilesConfig {
    pub path: String,
}

/// The whole process configuration, built once at start-up and passed explicitly.
#[derive(Debug, Clone)]
pub struct Config {
    pub mdx_files: Vec<MdxFile>,
    pub server: ServerConfig,
    pub static_files: StaticFilesConfig,
}

/// The language tag assumed when none is given.
pub open spec fn default_language() -> Seq<char> {
    seq!['e', 'n']
}

pub open spec fn default_port_spec() -> u16 {
    8181
}

pub open spec fn default_host_spec() -> Seq<char> {
    seq!['1', '2', '7', '.', '0', '.', '0', '.', '1']
}

pub open spec fn default_static_path_spec() -> Seq<char> {
    seq!['.', '/', 'r', 'e', 's', 'o', 'u', 'r', 'c', 'e', 's', '/', 's', 't', 'a', 't', 'i', 'c']
}

pub fn default_enabled() -> (r: bool)
    ensures
        r,
{
    true
}

pub fn default_port() -> (r: u16)
    ensures
        r == default_port_spec(),
{
    8181
}

pub fn default_host() -> (r: String)
    ensures
        r@ == default_host_spec(),
{
    proof {
        reveal_strlit("127.0.0.1");
    }
    String::from_str("127.0.0.1")
}

pub fn default_static_path() -> (r: String)
    ensures
        r@ == default_static_path_spec(),
{
    proof {
        reveal_strlit("./resources/static");
    }
    String::from_str("./resources/static")
}

impl Default for ServerConfig {
    fn default() -> (r: Self)
        ensures
            r.port == default_port_spec(),
            r.host@ == default_host_spec(),
    {
        ServerConfig { port: default_port(), host: default_host() }
    }
}

impl Default for StaticFilesConfig {
    fn default() -> (r: Self)
        ensures
            r.path@ == default_static_path_spec(),
    {
        StaticFilesConfig { path: default_static_path() }
    }
}

impl Default for Config {
    fn default() -> (r: Self)
        ensures
            r.mdx_files@.len() == 0,
            r.server.port == default_port_spec(),
            r.server.host@ == default_host_spec(),
            r.static_files.path@ == default_static_path_spec(),
    {
        Config {
            mdx_files: Vec::new(),
            server: ServerConfig::default(),
            static_files: StaticFilesConfig::default(),
        }
    }
}


/// The language a query is answered in: the one given, or the default.
pub open spec fn target_language(lang: Option<Seq<char>>) -> Seq<char> {
    match lang {
        Some(l) => l,
        None => default_language(),
    }
}

/// A dictionary takes part in answering queries of language `target`: it is
/// enabled, and its tag equals `target` (an untagged one counts as the default
/// language).
pub open spec fn file_selected(f: MdxFile, target: Seq<char>) -> bool {
    f.enabled && match f.language {
        Some(l) => l@ == target,
        None => target == default_language(),
    }
}

/// The paths of the enabled dictionaries, in configuration order.
pub open spec fn enabled_paths(fs: Seq<MdxFile>) -> Seq<Seq<char>>
    decreases fs.len(),
{
    if fs.len() == 0 {
        seq![]
    } else {
        let prev = enabled_paths(fs.drop_last());
        if fs.last().enabled {
            prev.push(fs.last().path@)
        } else {
            prev
        }
    }
}

/// The paths of the dictionaries selected for language `target`, in
/// configuration order.
pub open spec fn selected_paths(fs: Seq<MdxFile>, target: Seq<char>) -> Seq<Seq<char>>
    decreases fs.len(),
{
    if fs.len() == 0 {
        seq![]
    } else {
        let prev = selected_paths(fs.drop_last(), target);
        if file_selected(fs.last(), target) {
            prev.push(fs.last().path@)
        } else {
            prev
        }
    }
}

pub open spec fn digit_char(d: nat) -> char {
    if d == 0 { '0' }
    else if d == 1 { '1' }
    else if d == 2 { '2' }
    else if d == 3 { '3' }
    else if d == 4 { '4' }
    else if d == 5 { '5' }
    else if d == 6 { '6' }
    else if d == 7 { '7' }
    else if d == 8 { '8' }
    else { '9' }
}

/// The decimal notation of `n`, without leading zeros.
pub open spec fn decimal(n: nat) -> Seq<char>
    decreases n,
{
    if n < 10 {
        seq![digit_char(n)]
    } else {
        decimal(n / 10).push(digit_char(n % 10))
    }
}

/// `host:port`.
pub open spec fn address_of(s: ServerConfig) -> Seq<char> {
    s.host@ + seq![':'] + decimal(s.port as nat)
}

/// The default language tag as a string.
pub fn default_lang() -> (r: String)
    ensures
        r@ == default_language(),
{
    proof {
        reveal_strlit("en");
    }
    String::from_str("en")
}

/// Whether `f` answers queries of language `target`.
pub fn selects(f: &MdxFile, target: &String) -> (r: bool)
    ensures
        r == file_selected(*f, target@),
{
    if !f.enabled {
        return false;
    }
    match &f.language {
        Some(l) => *l == *target,
        None => {
            let d = default_lang();
            *target == d
        },
    }
}

/// Paths of all enabled dictionaries, in configuration order.
pub fn get_mdx_files(config: &Config) -> (r: Vec<String>)
    ensures
        r@.map_values(|s: String| s@) == enabled_paths(config.mdx_files@),
{
    let mut r: Vec<String> = Vec::new();
    let mut i: usize = 0;
    while i < config.mdx_files.len()
        invariant
            i <= config.mdx_files@.len(),
            r@.map_values(|s: String| s@) == enabled_paths(config.mdx_files@.take(i as int)),
        decreases config.mdx_files@.len() - i,
    {
        let f = &config.mdx_files[i];
        proof {
            assert(config.mdx_files@.take(i + 1).drop_last() =~= config.mdx_files@.take(i as int));
        }
        if f.enabled {
            r.push(f.path.clone());
        }
        assert(r@.map_values(|s: String| s@) =~= enabled_paths(config.mdx_files@.take(i + 1)));
        i = i + 1;
    }
    assert(config.mdx_files@.take(i as int) =~= config.mdx_files@);
    r
}

/// Paths of the dictionaries that answer queries of `lang` (the default
/// language when `None`), in configuration order.
pub fn get_mdx_files_by_language(config: &Config, lang: Option<&str>) -> (r: Vec<String>)
    ensures
        r@.map_values(|s: String| s@) == selected_paths(
            config.mdx_files@,
            target_language(
                match lang {
                    Some(l) => Some(l@),
                    None => None,
                },
            ),
        ),
{
    let target = match lang {
        Some(l) => String::from_str(l),
        None => default_lang(),
    };
    let mut r: Vec<String> = Vec::new();
    let mut i: usize = 0;
    while i < config.mdx_files.len()
        invariant
            i <= config.mdx_files@.len(),
            r@.map_values(|s: String| s@) == selected_paths(config.mdx_files@.take(i as int), target@),
        decreases config.mdx_files@.len() - i,
    {
        let f = &config.mdx_files[i];
        proof {
            assert(config.mdx_files@.take(i + 1).drop_last() =~= config.mdx_files@.take(i as int));
        }
        if selects(f, &target) {
            r.push(f.path.clone());
        }
        assert(r@.map_values(|s: String| s@) =~= selected_paths(config.mdx_files@.take(i + 1), target@));
        i = i + 1;
    }
    assert(config.mdx_files@.take(i as int) =~= config.mdx_files@);
    r
}

/// The directory static assets are served from.
pub fn static_path(config: &Config) -> (r: String)
    ensures
        r@ == config.static_files.path@,
{
    config.static_files.path.clone()
}

fn digit_string(d: u16) -> (r: String)
    requires
        d < 10,
    ensures
        r@ == seq![digit_char(d as nat)],
{
    proof {
        reveal_strlit("0");
        reveal_strlit("1");
        reveal_strlit("2");
        reveal_strlit("3");
        reveal_strlit("4");
        reveal_strlit("5");
        reveal_strlit("6");
        reveal_strlit("7");
        reveal_strlit("8");
        reveal_strlit("9");
    }
    let s = if d == 0 { "0" }
    else if d == 1 { "1" }
    else if d == 2 { "2" }
    else if d == 3 { "3" }
    else if d == 4 { "4" }
    else if d == 5 { "5" }
    else if d == 6 { "6" }
    else if d == 7 { "7" }
    else if d == 8 { "8" }
    else { "9" };
    let r = String::from_str(s);
    assert(r@ =~= seq![digit_char(d as nat)]);
    r
}

/// The decimal notation of `n`.
pub fn decimal_string(n: u16) -> (r: String)
    ensures
        r@ == decimal(n as nat),
    decreases n,
{
    if n < 10 {
        digit_string(n)
    } else {
        let mut s = decimal_string(n / 10);
        let d = digit_string(n % 10);
        s.append(d.as_str());
        assert(s@ =~= decimal(n as nat));
        s
    }
}

/// The address the server listens on, as `host:port`.
pub fn server_address(config: &Config) -> (r: String)
    ensures
        r@ == address_of(config.server),
{
    proof {
        reveal_strlit(":");
    }
    let mut s = config.server.host.clone();
    s.append(":");
    let p = decimal_string(config.server.port);
    s.append(p.as_str());
    assert(s@ =~= address_of(config.server));
    s
}

} // verus!
