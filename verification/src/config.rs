//! The CLI's configuration file (`.a2a.yaml`): where it is looked for, and how it fills in
//! what the command line left out.

use vstd::prelude::*;
use vstd::string::*;
use crate::cli::{Binding, Cli, HeaderArg, OutputFormat, parse_header, spec_parse_header};
use crate::text::{chars_of, copy_string, copy_opt_string, opt_view, str_eq, ends_with, ends_with_str, strings_view};

verus! {

/// The configuration file's contents.
pub struct Config {
    pub enabled_bindings: Vec<String>,
    pub bearer_token: Option<String>,
    pub headers: Vec<String>,
    pub output: Option<String>,
}

impl Default for Config {
    fn default() -> (res: Config)
        ensures
            res.enabled_bindings@.len() == 0,
            res.bearer_token is None,
            res.headers@.len() == 0,
            res.output is None,
    {
        Config { enabled_bindings: Vec::new(), bearer_token: None, headers: Vec::new(), output: None }
    }
}

/// Errors of the configuration file, each with the file's path.
#[derive(Debug)]
pub enum ConfigError {
    Io(String, String),
    Parse(String, String),
    Invalid(String, String),
}

/// The view of a [`ConfigError`]: kind (0 read, 1 parse, 2 invalid), path, message.
pub open spec fn config_error_view(e: ConfigError) -> (int, Seq<char>, Seq<char>) {
    match e {
        ConfigError::Io(p, m) => (0, p@, m@),
        ConfigError::Parse(p, m) => (1, p@, m@),
        ConfigError::Invalid(p, m) => (2, p@, m@),
    }
}

/// The text a [`ConfigError`] displays.
pub open spec fn spec_config_error_text(e: ConfigError) -> Seq<char> {
    match e {
        ConfigError::Io(p, m) => "failed to read "@ + p@ + ": "@ + m@,
        ConfigError::Parse(p, m) => "failed to parse "@ + p@ + ": "@ + m@,
        ConfigError::Invalid(p, m) => "invalid value in "@ + p@ + ": "@ + m@,
    }
}

impl ConfigError {
    /// The human-readable text of the error.
    pub fn to_message(&self) -> (res: String)
        ensures
            res@ == spec_config_error_text(*self),
    {
        match self {
            ConfigError::Io(p, m) => String::from_str("failed to read ").concat(p.as_str()).concat(": ").concat(m.as_str()),
            ConfigError::Parse(p, m) => String::from_str("failed to parse ").concat(p.as_str()).concat(": ").concat(m.as_str()),
            ConfigError::Invalid(p, m) => String::from_str("invalid value in ").concat(p.as_str()).concat(": ").concat(m.as_str()),
        }
    }
}

/// The binding a configuration value names.
pub open spec fn spec_parse_binding(s: Seq<char>) -> Option<Binding> {
    if s == "jsonrpc"@ {
        Some(Binding::Jsonrpc)
    } else if s == "http-json"@ {
        Some(Binding::HttpJson)
    } else {
        None
    }
}

/// The output format a configuration value names.
pub open spec fn spec_parse_output(s: Seq<char>) -> Option<OutputFormat> {
    if s == "pretty"@ {
        Some(OutputFormat::Pretty)
    } else if s == "json"@ {
        Some(OutputFormat::Json)
    } else {
        None
    }
}

/// Reads a binding name (`jsonrpc` or `http-json`).
pub fn parse_binding_str(s: &str) -> (res: Option<Binding>)
    ensures
        res == spec_parse_binding(s@),
{
    if str_eq(s, "jsonrpc") {
        Some(Binding::Jsonrpc)
    } else if str_eq(s, "http-json") {
        Some(Binding::HttpJson)
    } else {
        None
    }
}

/// Reads an output format name (`pretty` or `json`).
pub fn parse_output_format(s: &str) -> (res: Option<OutputFormat>)
    ensures
        res == spec_parse_output(s@),
{
    if str_eq(s, "pretty") {
        Some(OutputFormat::Pretty)
    } else if str_eq(s, "json") {
        Some(OutputFormat::Json)
    } else {
        None
    }
}

/// What `format!("{:?}", s)` writes for a string: it quoted, with escapes.
pub uninterp spec fn spec_debug_str(s: Seq<char>) -> Seq<char>;

/// `format!("{:?}", s)`: the string quoted and escaped as `Debug` writes it.
#[verifier::external_body]
fn debug_quoted(s: &str) -> (res: String)
    ensures
        res@ == spec_debug_str(s@),
{
    format!("{:?}", s)
}

/// Index of the first configured binding that names no binding, or the count.
pub open spec fn first_bad_binding(cfg: Seq<String>, i: int) -> int
    decreases cfg.len() - i,
{
    if i >= cfg.len() {
        cfg.len() as int
    } else if spec_parse_binding(cfg[i]@) is None {
        i
    } else {
        first_bad_binding(cfg, i + 1)
    }
}

/// Index of the first configured header that does not parse, or the count.
pub open spec fn first_bad_header(cfg: Seq<String>, i: int) -> int
    decreases cfg.len() - i,
{
    if i >= cfg.len() {
        cfg.len() as int
    } else if spec_parse_header(cfg[i]@) is Err {
        i
    } else {
        first_bad_header(cfg, i + 1)
    }
}

/// The bindings the first `n` configured values name.
pub open spec fn parsed_bindings(cfg: Seq<String>, n: int) -> Seq<Binding> {
    Seq::new(n as nat, |i: int| spec_parse_binding(cfg[i]@)->0)
}

/// The headers the configured values give.
pub open spec fn parsed_headers(cfg: Seq<String>) -> Seq<(Seq<char>, Seq<char>)> {
    cfg.map_values(|s: String| spec_parse_header(s@)->Ok_0)
}

pub open spec fn headers_view(h: Seq<HeaderArg>) -> Seq<(Seq<char>, Seq<char>)> {
    h.map_values(|a: HeaderArg| (a.name@, a.value@))
}

/// The path errors name: the file's, or `<config>`.
pub open spec fn shown_path(path: Option<String>) -> Seq<char> {
    match path {
        Some(p) => p@,
        None => "<config>"@,
    }
}

/// What applying the configuration does, step by step: the bindings (only when the command
/// line gave none), the bearer token (only when the command line gave none), the headers
/// (configured ones first, then the command line's), the output format (only when the
/// command line gave none). The first invalid value stops it with an error; what earlier
/// steps did stays done, and a binding list stays as far as it was read.
pub open spec fn apply_config_ok(old: Cli, new: Cli, config: Config, path: Option<String>, res: Result<(), ConfigError>) -> bool {
    let p = shown_path(path);
    let cb = config.enabled_bindings@;
    let take_bindings = old.enabled_bindings@.len() == 0 && cb.len() > 0;
    let kb = first_bad_binding(cb, 0);
    let bindings_fail = take_bindings && kb < cb.len();
    let bindings = if take_bindings { parsed_bindings(cb, kb) } else { old.enabled_bindings@ };
    let token = if old.bearer_token is None { opt_view(config.bearer_token) } else { opt_view(old.bearer_token) };
    let ch = config.headers@;
    let kh = first_bad_header(ch, 0);
    let headers_fail = ch.len() > 0 && kh < ch.len();
    let headers = if ch.len() > 0 && !headers_fail {
        parsed_headers(ch) + headers_view(old.headers@)
    } else {
        headers_view(old.headers@)
    };
    let output_fail = old.output is None && (config.output matches Some(s) && spec_parse_output(s@) is None);
    let output = if old.output is None && config.output is Some && !output_fail {
        Some(spec_parse_output(config.output->0@)->0)
    } else {
        old.output
    };
    &&& new.command == old.command
    &&& new.enabled_bindings@ == bindings
    &&& if bindings_fail {
        &&& res matches Err(e) && config_error_view(e) == (2int, p, "unknown transport: "@ + spec_debug_str(cb[kb]@))
        &&& opt_view(new.bearer_token) == opt_view(old.bearer_token)
        &&& headers_view(new.headers@) == headers_view(old.headers@)
        &&& new.output == old.output
    } else {
        &&& opt_view(new.bearer_token) == token
        &&& if headers_fail {
            &&& res matches Err(e) && config_error_view(e) == (2int, p,
                "invalid header "@ + spec_debug_str(ch[kh]@) + ": "@ + spec_parse_header(ch[kh]@)->Err_0)
            &&& headers_view(new.headers@) == headers_view(old.headers@)
            &&& new.output == old.output
        } else {
            &&& headers_view(new.headers@) == headers
            &&& if output_fail {
                &&& res matches Err(e) && config_error_view(e) == (2int, p, "unknown output format: "@ + spec_debug_str(config.output->0@))
                &&& new.output == old.output
            } else {
                &&& res is Ok
                &&& new.output == output
            }
        }
    }
}

fn invalid(p: &String, msg: String) -> (res: ConfigError)
    ensures
        config_error_view(res) == (2int, p@, msg@),
{
    ConfigError::Invalid(copy_string(p.as_str()), msg)
}

/// Fills in from the configuration what the command line left out.
#[verifier::loop_isolation(false)]
pub fn apply_config(cli: &mut Cli, config: &Config, path: &Option<String>) -> (res: Result<(), ConfigError>)
    ensures
        apply_config_ok(*old(cli), *final(cli), *config, *path, res),
{
    let p: String = match path {
        Some(x) => copy_string(x.as_str()),
        None => String::from_str("<config>"),
    };
    let ghost cb = config.enabled_bindings@;
    let ghost start = *cli;
    // Enabled bindings: the command line wins when it gave any.
    if cli.enabled_bindings.len() == 0 && config.enabled_bindings.len() > 0 {
        let mut i: usize = 0;
        while i < config.enabled_bindings.len()
            invariant
                cb == config.enabled_bindings@,
                i <= cb.len(),
                cli.command == start.command,
                cli.bearer_token == start.bearer_token,
                cli.headers == start.headers,
                cli.output == start.output,
                first_bad_binding(cb, 0) == first_bad_binding(cb, i as int),
                forall|j: int| 0 <= j < i ==> spec_parse_binding(#[trigger] cb[j]@) is Some,
                cli.enabled_bindings@ =~= parsed_bindings(cb, i as int),
            decreases cb.len() - i,
        {
            match parse_binding_str(config.enabled_bindings[i].as_str()) {
                Some(b) => {
                    cli.enabled_bindings.push(b);
                },
                None => {
                    let msg = String::from_str("unknown transport: ").concat(
                        debug_quoted(config.enabled_bindings[i].as_str()).as_str(),
                    );
                    return Err(invalid(&p, msg));
                },
            }
            i += 1;
        }
    }
    // Bearer token: the command line wins.
    if cli.bearer_token.is_none() {
        cli.bearer_token = copy_opt_string(&config.bearer_token);
    }
    // Headers: configured ones first, then the command line's.
    if config.headers.len() > 0 {
        let ghost ch = config.headers@;
        let mut config_headers: Vec<HeaderArg> = Vec::new();
        let mut i: usize = 0;
        while i < config.headers.len()
            invariant
                ch == config.headers@,
                i <= ch.len(),
                first_bad_header(ch, 0) == first_bad_header(ch, i as int),
                forall|j: int| 0 <= j < i ==> spec_parse_header(#[trigger] ch[j]@) is Ok,
                headers_view(config_headers@) =~= parsed_headers(ch.subrange(0, i as int)),
            decreases ch.len() - i,
        {
            match parse_header(config.headers[i].as_str()) {
                Ok(h) => {
                    config_headers.push(h);
                    assert(parsed_headers(ch.subrange(0, i + 1)) =~= parsed_headers(ch.subrange(0, i as int)).push(spec_parse_header(ch[i as int]@)->Ok_0));
                },
                Err(e) => {
                    let msg = String::from_str("invalid header ").concat(
                        debug_quoted(config.headers[i].as_str()).as_str(),
                    ).concat(": ").concat(e.as_str());
                    return Err(invalid(&p, msg));
                },
            }
            i += 1;
        }
        assert(ch.subrange(0, ch.len() as int) =~= ch);
        let ghost before = cli.headers@;
        config_headers.append(&mut cli.headers);
        cli.headers = config_headers;
        assert(headers_view(cli.headers@) =~= parsed_headers(ch) + headers_view(before));
    }
    // Output: the command line wins.
    if cli.output.is_none() {
        if let Some(s) = &config.output {
            match parse_output_format(s.as_str()) {
                Some(f) => {
                    cli.output = Some(f);
                },
                None => {
                    let msg = String::from_str("unknown output format: ").concat(debug_quoted(s.as_str()).as_str());
                    return Err(invalid(&p, msg));
                },
            }
        }
    }
    Ok(())
}


/// The name of the configuration file.
pub open spec fn config_filename() -> Seq<char> {
    ".a2a.yaml"@
}

/// `dir` joined with the configuration file's name: a separator is put between them unless
/// `dir` is empty or already ends with one (`Path::join` with a relative name).
pub open spec fn spec_config_candidate(dir: Seq<char>) -> Seq<char> {
    if dir.len() == 0 || ends_with(dir, "/"@) {
        dir + config_filename()
    } else {
        dir + "/"@ + config_filename()
    }
}

/// The configuration file's place in a directory.
pub fn config_candidate(dir: &str) -> (res: String)
    ensures
        res@ == spec_config_candidate(dir@),
{
    let v = chars_of(dir);
    if v.len() == 0 || ends_with_str(&v, "/") {
        copy_string(dir).concat(".a2a.yaml")
    } else {
        copy_string(dir).concat("/").concat(".a2a.yaml")
    }
}

/// What `Path::parent` gives for a path: the path without its final component.
pub uninterp spec fn spec_path_parent(p: Seq<char>) -> Option<Seq<char>>;

/// Whether `Path`'s `==` holds of two paths (it compares them component by component).
pub uninterp spec fn spec_path_eq(a: Seq<char>, b: Seq<char>) -> bool;

/// `Path::parent`: the path without its final component, `None` when the path ends in a
/// root or is empty. Removing a component leaves a shorter text.
#[verifier::external_body]
fn path_parent(p: &str) -> (res: Option<String>)
    ensures
        opt_view(res) == spec_path_parent(p@),
        res matches Some(q) ==> q@.len() < p@.len(),
{
    std::path::Path::new(p).parent().map(|q| q.to_string_lossy().into_owned())
}

/// `Path`'s `==`: it compares the paths component by component, so equal texts are equal
/// paths.
#[verifier::external_body]
fn path_eq(a: &str, b: &str) -> (res: bool)
    ensures
        res == spec_path_eq(a@, b@),
        a@ == b@ ==> res,
{
    std::path::Path::new(a) == std::path::Path::new(b)
}

/// `Path::is_file`: whether a regular file is there now. It depends on the disk; nothing is
/// stated of it.
#[verifier::external_body]
fn path_is_file(p: &str) -> (res: bool) {
    std::path::Path::new(p).is_file()
}

/// The directories searched for the configuration file, in order: `start`, then each parent,
/// up to and including `home` (when met) or the root.
pub open spec fn spec_search_dirs(start: Seq<char>, home: Option<Seq<char>>) -> Seq<Seq<char>>
    decreases start.len(),
{
    let stop = match home {
        Some(h) => spec_path_eq(start, h),
        None => false,
    };
    if stop {
        seq![start]
    } else {
        match spec_path_parent(start) {
            Some(p) => if p.len() < start.len() {
                seq![start] + spec_search_dirs(p, home)
            } else {
                seq![start]
            },
            None => seq![start],
        }
    }
}

pub open spec fn opt_str_view(s: Option<&str>) -> Option<Seq<char>> {
    match s {
        Some(x) => Some(x@),
        None => None,
    }
}

/// The directories searched for the configuration file, in order: `start`, then each parent,
/// up to and including `home` (when met) or the root.
pub fn search_dirs(start: &str, home: Option<&str>) -> (res: Vec<String>)
    ensures
        strings_view(res@) == spec_search_dirs(start@, opt_str_view(home)),
        (home matches Some(h) && h@ == start@) ==> res@.len() == 1 && res@[0]@ == start@,
{
    let ghost all = spec_search_dirs(start@, opt_str_view(home));
    let mut out: Vec<String> = Vec::new();
    let mut dir = copy_string(start);
    loop
        invariant
            all == spec_search_dirs(start@, opt_str_view(home)),
            all == strings_view(out@) + spec_search_dirs(dir@, opt_str_view(home)),
            out@.len() == 0 ==> dir@ == start@,
            (home matches Some(h) && h@ == start@) ==> out@.len() == 0,
        decreases dir@.len(),
    {
        let ghost rest = spec_search_dirs(dir@, opt_str_view(home));
        let ghost before = strings_view(out@);
        let stop = match home {
            Some(h) => path_eq(dir.as_str(), h),
            None => false,
        };
        if stop {
            out.push(dir);
            assert(strings_view(out@) =~= before.push(rest[0]));
            assert(rest =~= seq![rest[0]]);
            assert(all =~= strings_view(out@));
            return out;
        }
        match path_parent(dir.as_str()) {
            Some(p) => {
                let ghost d = dir@;
                assert(rest == seq![d] + spec_search_dirs(p@, opt_str_view(home)));
                out.push(dir);
                assert(strings_view(out@) =~= before.push(d));
                assert(all =~= strings_view(out@) + spec_search_dirs(p@, opt_str_view(home)));
                dir = p;
            },
            None => {
                let ghost d = dir@;
                assert(rest == seq![d]);
                out.push(dir);
                assert(strings_view(out@) =~= before.push(d));
                assert(all =~= strings_view(out@));
                return out;
            },
        }
    }
}

/// The first index at or after `i` where a probe found a file, or the number of probes.
pub open spec fn spec_first_found(found: Seq<bool>, i: int) -> int
    decreases found.len() - i,
{
    if i >= found.len() {
        found.len() as int
    } else if found[i] {
        i
    } else {
        spec_first_found(found, i + 1)
    }
}

proof fn lemma_first_found_bounds(found: Seq<bool>, i: int)
    requires
        0 <= i <= found.len(),
    ensures
        i <= spec_first_found(found, i) <= found.len(),
    decreases found.len() - i,
{
    if i < found.len() && !found[i] {
        lemma_first_found_bounds(found, i + 1);
    }
}

/// The configuration file that probes of the directories' candidates point to: the candidate
/// of the first directory whose probe found a file, or none.
pub open spec fn spec_pick_config(dirs: Seq<Seq<char>>, found: Seq<bool>) -> Option<Seq<char>> {
    let k = spec_first_found(found, 0);
    if k < found.len() && k < dirs.len() {
        Some(spec_config_candidate(dirs[k]))
    } else {
        None
    }
}

/// Picks the configuration file from the probes of the directories' candidates, in order:
/// `found[k]` says whether the candidate of `dirs[k]` is a file.
pub fn pick_config(dirs: &Vec<String>, found: &Vec<bool>) -> (res: Option<String>)
    ensures
        opt_view(res) == spec_pick_config(strings_view(dirs@), found@),
{
    let mut i: usize = 0;
    while i < found.len() && !found[i]
        invariant
            i <= found@.len(),
            spec_first_found(found@, 0) == spec_first_found(found@, i as int),
        decreases found.len() - i,
    {
        i += 1;
    }
    if i < found.len() && i < dirs.len() {
        Some(config_candidate(dirs[i].as_str()))
    } else {
        None
    }
}

/// `found` records probes of the candidates of `dirs`, in order, made with `probe`: one probe
/// per directory from the first, stopping at the first that found a file or after the last
/// directory; `found[i]` is what `probe` answered for the candidate of `dirs[i]`.
pub open spec fn spec_probed<F: Fn(&str) -> bool>(probe: F, dirs: Seq<Seq<char>>, found: Seq<bool>) -> bool {
    &&& found.len() <= dirs.len()
    &&& found.len() == dirs.len() || (found.len() > 0 && found.last())
    &&& forall|i: int| 0 <= i < found.len() - 1 ==> !#[trigger] found[i]
    &&& forall|i: int| 0 <= i < found.len() ==> #[trigger] spec_answered(probe, spec_config_candidate(dirs[i]), found[i])
}

/// `probe` answered `b` when asked about the path `p`.
pub open spec fn spec_answered<F: Fn(&str) -> bool>(probe: F, p: Seq<char>, b: bool) -> bool {
    exists|c: &str| c@ == p && call_ensures(probe, (c,), b)
}

/// Looks for the configuration file in `start` and its parents, stopping after `home`: the
/// candidate of each directory of [`search_dirs`] is given to `probe` in order, up to the
/// first that `probe` says is a file, and [`pick_config`] decides on the answers.
pub fn find_config_file_with<F: Fn(&str) -> bool>(start: &str, home: Option<&str>, probe: F) -> (res: Option<String>)
    requires
        forall|c: &str| call_requires(probe, (c,)),
    ensures
        exists|found: Seq<bool>|
            spec_probed(probe, spec_search_dirs(start@, opt_str_view(home)), found)
            && opt_view(res) == spec_pick_config(spec_search_dirs(start@, opt_str_view(home)), found),
        (home matches Some(h) && h@ == start@) ==> (res matches Some(f) ==> f@ == spec_config_candidate(start@)),
{
    let dirs = search_dirs(start, home);
    let ghost ds = strings_view(dirs@);
    let mut found: Vec<bool> = Vec::new();
    let mut hit = false;
    let mut i: usize = 0;
    while i < dirs.len() && !hit
        invariant
            forall|c: &str| call_requires(probe, (c,)),
            ds == strings_view(dirs@),
            i <= dirs@.len(),
            found@.len() == i,
            hit == (i > 0 && found@[i - 1]),
            forall|j: int| 0 <= j < i - 1 ==> !#[trigger] found@[j],
            forall|j: int| 0 <= j < i ==> #[trigger] spec_answered(probe, spec_config_candidate(ds[j]), found@[j]),
        decreases dirs.len() - i,
    {
        let candidate = config_candidate(dirs[i].as_str());
        let c = candidate.as_str();
        hit = probe(c);
        assert(call_ensures(probe, (c,), hit));
        assert(c@ == spec_config_candidate(ds[i as int]));
        assert(spec_answered(probe, spec_config_candidate(ds[i as int]), hit));
        let ghost before = found@;
        found.push(hit);
        assert forall|j: int| 0 <= j < i + 1 implies #[trigger] spec_answered(probe, spec_config_candidate(ds[j]), found@[j]) by {
            if j < i {
                assert(found@[j] == before[j]);
            } else {
                assert(found@[j] == hit);
            }
        }
        i += 1;
    }
    let res = pick_config(&dirs, &found);
    assert(spec_probed(probe, ds, found@));
    proof {
        if home matches Some(h) && h@ == start@ {
            lemma_first_found_bounds(found@, 0);
            assert(strings_view(dirs@)[0] == dirs@[0]@);
        }
    }
    res
}

/// `found` records probes of the candidates of `dirs` made on the disk with `Path::is_file`,
/// as [`spec_probed`] describes them.
pub closed spec fn spec_probed_on_disk(dirs: Seq<Seq<char>>, found: Seq<bool>) -> bool {
    spec_probed(path_is_file, dirs, found)
}

/// Looks for the configuration file in `start` and its parents, stopping after `home`: the
/// candidate of each directory of [`search_dirs`] is probed on the disk in order, up to the
/// first that is a file, and [`pick_config`] decides on the probes. What the probes find
/// depends on the disk; that each was made, and in what order, is stated.
pub fn find_config_file_from(start: &str, home: Option<&str>) -> (res: Option<String>)
    ensures
        exists|found: Seq<bool>|
            found.len() <= spec_search_dirs(start@, opt_str_view(home)).len()
            && opt_view(res) == spec_pick_config(spec_search_dirs(start@, opt_str_view(home)), found)
            && spec_probed_on_disk(spec_search_dirs(start@, opt_str_view(home)), found),
        (home matches Some(h) && h@ == start@) ==> (res matches Some(f) ==> f@ == spec_config_candidate(start@)),
{
    find_config_file_with(start, home, path_is_file)
}

/// The configuration file that applies: the one the search from the working directory
/// found, else the one in `home` when the probe there found a file, else none.
pub open spec fn spec_choose_config(found: Option<Seq<char>>, home: Option<Seq<char>>, home_has_file: bool) -> Option<Seq<char>> {
    match found {
        Some(f) => Some(f),
        None => match home {
            Some(h) => if home_has_file { Some(spec_config_candidate(h)) } else { None },
            None => None,
        },
    }
}

/// Decides between the search's result and the file in `home`.
pub fn choose_config(found: Option<String>, home: Option<&str>, home_has_file: bool) -> (res: Option<String>)
    ensures
        opt_view(res) == spec_choose_config(opt_view(found), opt_str_view(home), home_has_file),
{
    match found {
        Some(f) => Some(f),
        None => match home {
            Some(h) => if home_has_file { Some(config_candidate(h)) } else { None },
            None => None,
        },
    }
}

/// Asks `probe` about the path `p`.
fn ask<F: Fn(&str) -> bool>(probe: F, p: &str) -> (res: bool)
    requires
        call_requires(probe, (p,)),
    ensures
        spec_answered(probe, p@, res),
{
    let b = probe(p);
    assert(call_ensures(probe, (p,), b));
    b
}

/// `b` is what `Path::is_file` answered for the path `p`.
pub closed spec fn spec_is_file_answer(p: Seq<char>, b: bool) -> bool {
    spec_answered(path_is_file, p, b)
}

/// Looks for the configuration file from the working directory `cwd` up to `home` (see
/// [`find_config_file_from`]), then probes `home`'s candidate when that found none; the
/// choice is [`choose_config`]'s. What the probes find depends on the disk; that each was
/// made is stated.
pub fn find_config_file(cwd: &str, home: Option<&str>) -> (res: Option<String>)
    ensures
        exists|found: Seq<bool>, home_has_file: bool|
            found.len() <= spec_search_dirs(cwd@, opt_str_view(home)).len()
            && spec_probed_on_disk(spec_search_dirs(cwd@, opt_str_view(home)), found)
            && (spec_pick_config(spec_search_dirs(cwd@, opt_str_view(home)), found) is None
                ==> (home matches Some(h) ==> spec_is_file_answer(spec_config_candidate(h@), home_has_file)))
            && opt_view(res) == spec_choose_config(
                spec_pick_config(spec_search_dirs(cwd@, opt_str_view(home)), found),
                opt_str_view(home),
                home_has_file,
            ),
{
    let found = find_config_file_from(cwd, home);
    let home_has_file = match (&found, home) {
        (None, Some(h)) => {
            let c = config_candidate(h);
            ask(path_is_file, c.as_str())
        },
        _ => false,
    };
    choose_config(found, home, home_has_file)
}

} // verus!
