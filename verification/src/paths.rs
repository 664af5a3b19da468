//! Where the app keeps its files, and the fixed addresses it talks to.
//!
//! A file-system path is kept as its parts, to be joined in order: the first part is a folder
//! as given (it may hold separators of its own), each later part one name below the previous.
use vstd::prelude::*;
use crate::text::{chars_of, chars_start_with, decimal, decimal_chars, push_chars, starts_with, string_of};
use crate::text_set::texts_of;

verus! {

broadcast use {vstd::string::group_string_axioms, Seq::lemma_push_map_commute};

pub open spec fn app_name() -> Seq<char> {
    "suno-downloader"@
}

pub open spec fn cli_app_name() -> Seq<char> {
    "suno-cli"@
}

pub open spec fn legacy_app_name() -> Seq<char> {
    "suno-sync-mini"@
}

pub open spec fn api_base() -> Seq<char> {
    "https://studio-api.prod.suno.com"@
}

pub open spec fn cdn_base() -> Seq<char> {
    "https://cdn1.suno.ai"@
}

pub open spec fn token_server_host() -> Seq<char> {
    "127.0.0.1"@
}

pub const TOKEN_SERVER_PORT: u16 = 38946;

pub open spec fn session_filename() -> Seq<char> {
    "session.json"@
}

pub open spec fn settings_filename() -> Seq<char> {
    "settings.json"@
}

pub open spec fn index_filename() -> Seq<char> {
    ".suno-cli-index.json"@
}

pub open spec fn legacy_index_filename() -> Seq<char> {
    ".suno-sync-mini-index.json"@
}

pub open spec fn dot_config() -> Seq<char> {
    seq!['.', 'c', 'o', 'n', 'f', 'i', 'g']
}

/// What the environment says about where configuration lives.
pub struct ConfigEnv {
    /// The program runs on Windows.
    pub windows: bool,
    /// `APPDATA`, if set.
    pub app_data: Option<String>,
    /// `XDG_CONFIG_HOME`, if set.
    pub xdg_config_home: Option<String>,
    /// The user's home folder, if known.
    pub home: Option<String>,
}

/// The configuration folder of an app: `APPDATA/{app}` on Windows when `APPDATA` is set, else
/// `XDG_CONFIG_HOME/{app}` when that is set, else `{home}/.config/{app}`, with `.` for an unknown
/// home.
pub open spec fn config_parts(env: ConfigEnv, app: Seq<char>) -> Seq<Seq<char>> {
    if env.windows && env.app_data is Some {
        seq![env.app_data->0@, app]
    } else if env.xdg_config_home is Some {
        seq![env.xdg_config_home->0@, app]
    } else {
        let home = match env.home {
            Some(h) => h@,
            None => seq!['.'],
        };
        seq![home, dot_config(), app]
    }
}

fn text(s: &str) -> (r: String)
    ensures
        r@ == s@,
{
    s.to_string()
}

/// The configuration folder of the named app (see [`config_parts`]).
pub fn config_dir_for(env: &ConfigEnv, app_name: &str) -> (r: Vec<String>)
    ensures
        texts_of(r@) == config_parts(*env, app_name@),
{
    let mut r: Vec<String> = Vec::new();
    if env.windows {
        if let Some(app_data) = &env.app_data {
            r.push(app_data.clone());
            r.push(text(app_name));
            assert(texts_of(r@) =~= config_parts(*env, app_name@));
            return r;
        }
    }
    if let Some(xdg) = &env.xdg_config_home {
        r.push(xdg.clone());
        r.push(text(app_name));
        assert(texts_of(r@) =~= config_parts(*env, app_name@));
        return r;
    }
    let home = match &env.home {
        Some(h) => h.clone(),
        None => {
            let d = string_of(&['.']);
            assert(d@ =~= seq!['.']);
            d
        },
    };
    r.push(home);
    let config = string_of(&['.', 'c', 'o', 'n', 'f', 'i', 'g']);
    assert(config@ =~= dot_config());
    r.push(config);
    r.push(text(app_name));
    assert(texts_of(r@) =~= config_parts(*env, app_name@));
    r
}

/// This app's configuration folder.
pub fn config_dir(env: &ConfigEnv) -> (r: Vec<String>)
    ensures
        texts_of(r@) == config_parts(*env, app_name()),
{
    config_dir_for(env, "suno-downloader")
}

/// The command-line tool's configuration folder.
pub fn cli_config_dir(env: &ConfigEnv) -> (r: Vec<String>)
    ensures
        texts_of(r@) == config_parts(*env, cli_app_name()),
{
    config_dir_for(env, "suno-cli")
}

/// The older app's configuration folder.
pub fn legacy_config_dir(env: &ConfigEnv) -> (r: Vec<String>)
    ensures
        texts_of(r@) == config_parts(*env, legacy_app_name()),
{
    config_dir_for(env, "suno-sync-mini")
}

fn join_name(mut dir: Vec<String>, name: &str) -> (r: Vec<String>)
    ensures
        texts_of(r@) == texts_of(dir@).push(name@),
{
    let ghost before = dir@;
    dir.push(text(name));
    assert(texts_of(dir@) =~= texts_of(before).push(name@));
    dir
}

/// This app's session file.
pub fn session_path(env: &ConfigEnv) -> (r: Vec<String>)
    ensures
        texts_of(r@) == config_parts(*env, app_name()).push(session_filename()),
{
    join_name(config_dir(env), "session.json")
}

/// The command-line tool's session file.
pub fn cli_session_path(env: &ConfigEnv) -> (r: Vec<String>)
    ensures
        texts_of(r@) == config_parts(*env, cli_app_name()).push(session_filename()),
{
    join_name(cli_config_dir(env), "session.json")
}

/// The older app's session file.
pub fn legacy_session_path(env: &ConfigEnv) -> (r: Vec<String>)
    ensures
        texts_of(r@) == config_parts(*env, legacy_app_name()).push(session_filename()),
{
    join_name(legacy_config_dir(env), "session.json")
}

/// This app's settings file.
pub fn settings_path(env: &ConfigEnv) -> (r: Vec<String>)
    ensures
        texts_of(r@) == config_parts(*env, app_name()).push(settings_filename()),
{
    join_name(config_dir(env), "settings.json")
}

/// The index file of a download folder: `.suno-cli-index.json` in it.
pub fn index_path(output_dir: &str) -> (r: Vec<String>)
    ensures
        texts_of(r@) == seq![output_dir@, index_filename()],
{
    let mut dir: Vec<String> = Vec::new();
    dir.push(text(output_dir));
    let r = join_name(dir, ".suno-cli-index.json");
    assert(texts_of(r@) =~= seq![output_dir@, index_filename()]);
    r
}

/// The older tool's index file of a download folder: `.suno-sync-mini-index.json` in it.
pub fn legacy_index_path(output_dir: &str) -> (r: Vec<String>)
    ensures
        texts_of(r@) == seq![output_dir@, legacy_index_filename()],
{
    let mut dir: Vec<String> = Vec::new();
    dir.push(text(output_dir));
    let r = join_name(dir, ".suno-sync-mini-index.json");
    assert(texts_of(r@) =~= seq![output_dir@, legacy_index_filename()]);
    r
}

/// The address of the local token server: `http://127.0.0.1:38946`.
pub fn token_server_url() -> (r: String)
    ensures
        r@ == "http://"@ + token_server_host() + seq![':'] + decimal(TOKEN_SERVER_PORT as nat),
{
    let mut v = chars_of("http://");
    let host = chars_of("127.0.0.1");
    push_chars(&mut v, &host);
    push_chars(&mut v, &[':']);
    let port = decimal_chars(TOKEN_SERVER_PORT as u64);
    push_chars(&mut v, &port);
    string_of(&v)
}

/// The download folder when none is configured: the `SUNO_OUTPUT_DIR` value if given, else
/// `./suno-wav`.
pub fn default_output_dir(env_output_dir: Option<String>) -> (r: String)
    ensures
        r@ == (match env_output_dir {
            Some(d) => d@,
            None => "./suno-wav"@,
        }),
{
    match env_output_dir {
        Some(d) => d,
        None => text("./suno-wav"),
    }
}

/// The path of a file in a folder.
pub fn clip_path(output_dir: &Vec<String>, filename: &str) -> (r: Vec<String>)
    ensures
        texts_of(r@) == texts_of(output_dir@).push(filename@),
{
    let mut dir: Vec<String> = Vec::new();
    let mut i: usize = 0;
    while i < output_dir.len()
        invariant
            i <= output_dir.len(),
            texts_of(dir@) == texts_of(output_dir@.subrange(0, i as int)),
        decreases output_dir.len() - i,
    {
        dir.push(output_dir[i].clone());
        i = i + 1;
        assert(texts_of(dir@) =~= texts_of(output_dir@.subrange(0, i as int)));
    }
    assert(output_dir@.subrange(0, output_dir.len() as int) =~= output_dir@);
    join_name(dir, filename)
}

/// The address of an API path: the path itself when it already starts with `http`, else the
/// path appended to the API base address.
pub fn api_url(path: &str) -> (r: String)
    ensures
        r@ == (if starts_with(path@, seq!['h', 't', 't', 'p']) {
            path@
        } else {
            api_base() + path@
        }),
{
    let p = chars_of(path);
    if chars_start_with(&p, &['h', 't', 't', 'p']) {
        return text(path);
    }
    let mut v = chars_of("https://studio-api.prod.suno.com");
    push_chars(&mut v, &p);
    string_of(&v)
}

} // verus!
