//! Where the data of a project is kept: the identifier of a project and
//! the layout of the directories.

use vstd::prelude::*;
use crate::text::{
    chars_of, contains_text_at_all, ends_with, find_first, index_of_text, join_path, joined_path,
    push_text, string_of, string_of_range, trim_bounds, trimmed,
};

verus! {

/// The name of the directory of the program under the data directory.
pub const APP_DIR: &'static str = "octobrain";

/// The SHA-256 digest of the UTF-8 bytes of a text, as sha2 computes it.
pub uninterp spec fn sha256(text: Seq<char>) -> Seq<u8>;

/// Hashes the UTF-8 bytes of a text with `sha2::Sha256::digest`. The
/// digest is named, not defined; it has 32 bytes.
#[verifier::external_body]
pub(crate) fn sha256_bytes(text: &str) -> (r: Vec<u8>)
    ensures
        r@ == sha256(text@),
        r@.len() == 32,
{
    <sha2::Sha256 as sha2::Digest>::digest(text.as_bytes()).to_vec()
}

/// The character of one hexadecimal digit, in lower case.
pub open spec fn hex_char(n: int) -> char {
    if n == 0 {
        '0'
    } else if n == 1 {
        '1'
    } else if n == 2 {
        '2'
    } else if n == 3 {
        '3'
    } else if n == 4 {
        '4'
    } else if n == 5 {
        '5'
    } else if n == 6 {
        '6'
    } else if n == 7 {
        '7'
    } else if n == 8 {
        '8'
    } else if n == 9 {
        '9'
    } else if n == 10 {
        'a'
    } else if n == 11 {
        'b'
    } else if n == 12 {
        'c'
    } else if n == 13 {
        'd'
    } else if n == 14 {
        'e'
    } else {
        'f'
    }
}

/// Bytes in hexadecimal: two digits in lower case for each byte, the high
/// half first.
pub open spec fn hex_text(bytes: Seq<u8>) -> Seq<char> {
    Seq::new(
        2 * bytes.len(),
        |i: int|
            if i % 2 == 0 {
                hex_char(bytes[i / 2] as int / 16)
            } else {
                hex_char(bytes[i / 2] as int % 16)
            },
    )
}

/// Writes bytes in hexadecimal with `hex::encode`: two digits in lower
/// case for each byte.
#[verifier::external_body]
pub(crate) fn hex_encode(bytes: &Vec<u8>) -> (r: String)
    ensures
        r@ == hex_text(bytes@),
{
    hex::encode(bytes)
}

/// The SHA-256 digest of a text in hexadecimal, 64 characters.
pub fn sha256_hex(text: &str) -> (r: String)
    ensures
        r@ == hex_text(sha256(text@)),
        r@.len() == 64,
{
    let digest = sha256_bytes(text);
    hex_encode(&digest)
}

/// `s` without a trailing `.git`.
pub open spec fn without_git_suffix(s: Seq<char>) -> Seq<char> {
    if s.len() >= 4 && s.subrange(s.len() - 4, s.len() as int) == ".git"@ {
        s.take(s.len() - 4)
    } else {
        s
    }
}

/// Whether `u` has the form `user@host:path` of an SSH remote: an `@`
/// and a `:`, but no `://`.
pub open spec fn is_ssh_form(u: Seq<char>) -> bool {
    &&& contains_text_at_all(u, "@"@)
    &&& contains_text_at_all(u, ":"@)
    &&& !contains_text_at_all(u, "://"@)
}

/// The normal form of the URL of a Git remote: trimmed, without a
/// trailing `.git`; `user@host:path` as `host/path`; else without its
/// `scheme://` prefix.
pub open spec fn normalized_git_url(url: Seq<char>) -> Seq<char> {
    let u = without_git_suffix(trimmed(url));
    let at = find_first(u, "@"@, 0);
    let colon = find_first(u, ":"@, at);
    let scheme = find_first(u, "://"@, 0);
    if is_ssh_form(u) && colon >= 0 {
        u.subrange(at + 1, colon) + seq!['/'] + u.skip(colon + 1)
    } else if scheme >= 0 {
        u.skip(scheme + 3)
    } else {
        u
    }
}

/// The identifier of a project: the first 16 characters of the SHA-256
/// digest, in hexadecimal, of the normal form of its Git remote, where
/// the output of Git names one, else of its absolute path.
pub open spec fn project_identifier(git_remote: Option<Seq<char>>, absolute_path: Seq<char>) -> Seq<
    char,
> {
    let source = match git_remote {
        Some(out) => if trimmed(out).len() > 0 {
            normalized_git_url(trimmed(out))
        } else {
            absolute_path
        },
        None => absolute_path,
    };
    hex_text(sha256(source)).take(16)
}

/// The operating systems between which the layout differs.
#[derive(Clone, Copy, Debug, PartialEq, Eq, Structural)]
pub enum Platform {
    MacOs,
    Windows,
    Other,
}

/// The directory under which everything is kept: on macOS
/// `~/.local/share/octobrain`; on Windows `octobrain` under the data
/// directory of the user; elsewhere `octobrain` under `$XDG_DATA_HOME`
/// where that is set, else `~/.local/share/octobrain`. `None` where the
/// directory it starts from is not known.
pub open spec fn storage_dir(
    platform: Platform,
    home: Option<Seq<char>>,
    data_dir: Option<Seq<char>>,
    xdg_data_home: Option<Seq<char>>,
) -> Option<Seq<char>> {
    match platform {
        Platform::MacOs => match home {
            Some(h) => Some(under_home(h)),
            None => None,
        },
        Platform::Windows => match data_dir {
            Some(d) => Some(joined_path(d, APP_DIR@)),
            None => None,
        },
        Platform::Other => match xdg_data_home {
            Some(x) => Some(joined_path(x, APP_DIR@)),
            None => match home {
                Some(h) => Some(under_home(h)),
                None => None,
            },
        },
    }
}

/// `.local/share/octobrain` under the home directory `h`.
pub open spec fn under_home(h: Seq<char>) -> Seq<char> {
    joined_path(joined_path(joined_path(h, ".local"@), "share"@), APP_DIR@)
}

/// What is said where the home directory is not known.
pub open spec fn no_home_message() -> Seq<char> {
    "Unable to determine home directory"@
}

/// What is said where the data directory is not known.
pub open spec fn no_data_dir_message() -> Seq<char> {
    "Unable to determine data directory"@
}

/// The normal form of the URL of a Git remote.
pub fn normalize_git_url(url: &str) -> (r: String)
    ensures
        r@ == normalized_git_url(url@),
{
    let all = chars_of(url);
    let (from, to) = trim_bounds(&all);
    let t = chars_of(string_of_range(&all, from, to).as_str());
    let suffix = chars_of(".git");
    proof {
        reveal_strlit(".git");
    }
    let end: usize = if ends_with(&t, &suffix) {
        t.len() - 4
    } else {
        t.len()
    };
    let u = chars_of(string_of_range(&t, 0, end).as_str());
    assert(u@ =~= without_git_suffix(trimmed(url@)));
    let at = index_of_text(&u, "@", 0);
    let any_colon = index_of_text(&u, ":", 0);
    let scheme = index_of_text(&u, "://", 0);
    proof {
        reveal_strlit("@");
        reveal_strlit(":");
        reveal_strlit("://");
    }
    if at.is_some() && any_colon.is_some() && scheme.is_none() {
        let a = at.unwrap();
        match index_of_text(&u, ":", a) {
            Some(c) => {
                proof {
                    assert(u@.subrange(a as int, a + 1)[0] == u@[a as int]);
                    assert(u@.subrange(c as int, c + 1)[0] == u@[c as int]);
                    assert(u@[a as int] == '@' && u@[c as int] == ':');
                }
                let mut out: Vec<char> = Vec::new();
                let host = string_of_range(&u, a + 1, c);
                push_text(&mut out, host.as_str());
                out.push('/');
                let path = string_of_range(&u, c + 1, u.len());
                push_text(&mut out, path.as_str());
                assert(out@ =~= u@.subrange(a + 1, c as int) + seq!['/'] + u@.skip(c + 1));
                return string_of(&out);
            },
            None => {},
        }
    }
    match scheme {
        Some(s) => {
            let r = string_of_range(&u, s + 3, u.len());
            assert(u@.subrange(s + 3, u.len() as int) =~= u@.skip(s + 3));
            r
        },
        None => string_of(&u),
    }
}

/// The identifier of a project. `git_remote` is what
/// `git remote get-url origin` printed, where it succeeded;
/// `absolute_path` is the absolute path of the project.
pub fn get_project_identifier(git_remote: Option<&str>, absolute_path: &str) -> (r: String)
    ensures
        r@ == project_identifier(
            match git_remote {
                Some(s) => Some(s@),
                None => None,
            },
            absolute_path@,
        ),
        r@.len() == 16,
{
    let digest = match git_remote {
        Some(out) => {
            let url = crate::text::trim(out);
            if url.as_str().unicode_len() > 0 {
                let normal = normalize_git_url(url.as_str());
                sha256_hex(normal.as_str())
            } else {
                sha256_hex(absolute_path)
            }
        },
        None => sha256_hex(absolute_path),
    };
    let all = chars_of(digest.as_str());
    let r = string_of_range(&all, 0, 16);
    assert(all@.subrange(0, 16) =~= all@.take(16));
    r
}

/// The directory under which everything is kept.
pub fn system_storage_dir(
    platform: Platform,
    home: Option<&str>,
    data_dir: Option<&str>,
    xdg_data_home: Option<&str>,
) -> (r: Result<String, String>)
    ensures
        match r {
            Ok(dir) => storage_dir(
                platform,
                text_of(home),
                text_of(data_dir),
                text_of(xdg_data_home),
            ) == Some(dir@),
            Err(e) => storage_dir(platform, text_of(home), text_of(data_dir), text_of(xdg_data_home))
                is None && e@ == (if platform == Platform::Windows {
                no_data_dir_message()
            } else {
                no_home_message()
            }),
        },
{
    match platform {
        Platform::MacOs => match home {
            Some(h) => Ok(home_storage_dir(h)),
            None => Err("Unable to determine home directory".to_owned()),
        },
        Platform::Windows => match data_dir {
            Some(d) => Ok(join_path(d, APP_DIR)),
            None => Err("Unable to determine data directory".to_owned()),
        },
        Platform::Other => match xdg_data_home {
            Some(x) => Ok(join_path(x, APP_DIR)),
            None => match home {
                Some(h) => Ok(home_storage_dir(h)),
                None => Err("Unable to determine home directory".to_owned()),
            },
        },
    }
}

/// The text of an optional string slice.
pub open spec fn text_of(o: Option<&str>) -> Option<Seq<char>> {
    match o {
        Some(s) => Some(s@),
        None => None,
    }
}

/// `.local/share/octobrain` under the home directory `home`.
pub fn home_storage_dir(home: &str) -> (r: String)
    ensures
        r@ == under_home(home@),
{
    let a = join_path(home, ".local");
    let b = join_path(a.as_str(), "share");
    join_path(b.as_str(), APP_DIR)
}

/// The directory of a project: the directory named by its identifier
/// under the system directory.
pub fn get_project_storage_path(system_dir: &str, project_id: &str) -> (r: String)
    ensures
        r@ == joined_path(system_dir@, project_id@),
{
    join_path(system_dir, project_id)
}

/// The directory of the tables of a project: `storage` under the
/// directory of the project.
pub fn get_project_database_path(system_dir: &str, project_id: &str) -> (r: String)
    ensures
        r@ == joined_path(joined_path(system_dir@, project_id@), "storage"@),
{
    let project = get_project_storage_path(system_dir, project_id);
    join_path(project.as_str(), "storage")
}

/// The file of the settings: `config.toml` under the system directory.
pub fn get_system_config_path(system_dir: &str) -> (r: String)
    ensures
        r@ == joined_path(system_dir@, "config.toml"@),
{
    join_path(system_dir, "config.toml")
}

/// The directory of the logs of a project: `logs` under the directory of
/// the project.
pub fn get_project_log_path(system_dir: &str, project_id: &str) -> (r: String)
    ensures
        r@ == joined_path(joined_path(system_dir@, project_id@), "logs"@),
{
    let project = get_project_storage_path(system_dir, project_id);
    join_path(project.as_str(), "logs")
}

} // verus!
