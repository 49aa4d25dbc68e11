//! The managed directory layout under the user's home, filename
//! sanitization, and tilde expansion.

use vstd::prelude::*;

use crate::chars::chars_to_string;
use crate::chars::lower_seq;
use crate::chars::starts_with;
use crate::chars::starts_with_chars;
use crate::chars::str_to_chars;
use crate::chars::to_lower_chars;
use crate::chars::trim_chars;
use crate::chars::trim_seq;

verus! {

/// Why a path could not be resolved.
#[derive(Debug, Clone, Copy, PartialEq, Eq, Structural)]
pub enum FsError {
    /// The user's home directory could not be determined.
    NoHomeDirectory,
}

impl FsError {
    /// A human-readable description of the error.
    pub fn message(&self) -> &'static str {
        match self {
            FsError::NoHomeDirectory => "Unable to determine home directory",
        }
    }
}

// ---------------------------------------------------------------------------
// Filename sanitization
// ---------------------------------------------------------------------------

/// Whether a character is a control character.
pub open spec fn is_control_char(c: char) -> bool {
    (c as u32) < 32 || (c as u32) == 127 || (128 <= (c as u32) && (c as u32) <= 159)
}

/// One sanitization step: separator, wildcard, quote and control
/// characters become underscores.
pub open spec fn replace_bad_char(c: char) -> char {
    if c == '/' || c == '\\' || c == ':' || c == '*' || c == '?' || c == '"' || c == '<' || c == '>'
        || c == '|' {
        '_'
    } else if is_control_char(c) {
        '_'
    } else {
        c
    }
}

/// Spaces become underscores, last.
pub open spec fn space_to_underscore(c: char) -> char {
    if c == ' ' {
        '_'
    } else {
        c
    }
}

/// The sanitized form of a name: bad characters replaced, whitespace
/// trimmed, lower-cased, spaces joined with underscores.
pub open spec fn sanitize_filename_spec(s: Seq<char>) -> Seq<char> {
    lower_seq(trim_seq(s.map_values(|c: char| replace_bad_char(c)))).map_values(
        |c: char| space_to_underscore(c),
    )
}

/// Converts a name into a safe, lower-case filename.
pub fn sanitize_filename(name: &str) -> (r: String)
    ensures
        r@ == sanitize_filename_spec(name@),
{
    let v = str_to_chars(name);
    let mut mapped: Vec<char> = Vec::new();
    let mut i: usize = 0;
    while i < v.len()
        invariant
            i <= v@.len(),
            mapped@.len() == i,
            forall|k: int| 0 <= k < i ==> mapped@[k] == replace_bad_char(v@[k]),
        decreases v@.len() - i,
    {
        let c = v[i];
        let out: char = if c == '/' || c == '\\' || c == ':' || c == '*' || c == '?' || c == '"'
            || c == '<' || c == '>' || c == '|' {
            '_'
        } else {
            let u: u32 = c as u32;
            if u < 32 || u == 127 || (128 <= u && u <= 159) {
                '_'
            } else {
                c
            }
        };
        mapped.push(out);
        i += 1;
    }
    proof {
        assert(mapped@ =~= v@.map_values(|c: char| replace_bad_char(c)));
    }
    let trimmed = trim_chars(&mapped);
    let lowered = to_lower_chars(&trimmed);
    let mut finished: Vec<char> = Vec::new();
    let mut j: usize = 0;
    while j < lowered.len()
        invariant
            j <= lowered@.len(),
            finished@.len() == j,
            forall|k: int| 0 <= k < j ==> finished@[k] == space_to_underscore(lowered@[k]),
        decreases lowered@.len() - j,
    {
        let c = lowered[j];
        if c == ' ' {
            finished.push('_');
        } else {
            finished.push(c);
        }
        j += 1;
    }
    proof {
        assert(finished@ =~= lowered@.map_values(|c: char| space_to_underscore(c)));
    }
    chars_to_string(&finished)
}

// ---------------------------------------------------------------------------
// Tilde expansion
// ---------------------------------------------------------------------------

/// The expanded form of a path: `~/rest` becomes the home directory,
/// a separator, and the rest; a bare `~` becomes the home directory;
/// anything else is unchanged. Without a home directory, the former
/// two fail.
pub open spec fn expand_tilde_spec(path: Seq<char>, home: Option<Seq<char>>) -> Result<
    Seq<char>,
    FsError,
> {
    if starts_with(path, "~/"@) {
        match home {
            None => Err(FsError::NoHomeDirectory),
            Some(h) => Ok(h + "/"@ + path.subrange(2, path.len() as int)),
        }
    } else if path == "~"@ {
        match home {
            None => Err(FsError::NoHomeDirectory),
            Some(h) => Ok(h),
        }
    } else {
        Ok(path)
    }
}

/// Expands a leading tilde against a known home directory.
pub fn expand_tilde_with_home(path: &str, home: Option<&str>) -> (r: Result<String, FsError>)
    ensures
        match r {
            Ok(p) => expand_tilde_spec(
                path@,
                match home {
                    Some(h) => Some(h@),
                    None => None,
                },
            ) == Ok::<Seq<char>, FsError>(p@),
            Err(e) => expand_tilde_spec(
                path@,
                match home {
                    Some(h) => Some(h@),
                    None => None,
                },
            ) == Err::<Seq<char>, FsError>(e),
        },
{
    let v = str_to_chars(path);
    let tilde_slash = str_to_chars("~/");
    proof {
        assert("~/"@.len() == 2) by {
            reveal_strlit("~/");
        }
    }
    if starts_with_chars(&v, &tilde_slash) {
        match home {
            None => Err(FsError::NoHomeDirectory),
            Some(h) => {
                let mut out = String::from_str(h);
                out.append("/");
                let mut i: usize = 2;
                let ghost base = out@;
                proof {
                    reveal_strlit("/");
                    assert(base =~= h@ + "/"@);
                }
                while i < v.len()
                    invariant
                        2 <= i <= v@.len(),
                        v@.len() >= 2,
                        out@ == base + v@.subrange(2, i as int),
                    decreases v@.len() - i,
                {
                    let ghost pre = out@;
                    let one = slice_one(&v, i);
                    out.append(one.as_str());
                    i += 1;
                    proof {
                        assert(out@ =~= base + v@.subrange(2, i as int));
                    }
                }
                proof {
                    assert(v@.subrange(2, v@.len() as int) =~= v@.subrange(2, v@.len() as int));
                    assert(out@ =~= h@ + "/"@ + path@.subrange(2, path@.len() as int));
                }
                Ok(out)
            },
        }
    } else {
        let tilde = str_to_chars("~");
        if crate::chars::chars_eq(&v, &tilde) {
            match home {
                None => Err(FsError::NoHomeDirectory),
                Some(h) => Ok(String::from_str(h)),
            }
        } else {
            Ok(String::from_str(path))
        }
    }
}

/// A one-character string at `i`.
fn slice_one(v: &Vec<char>, i: usize) -> (r: String)
    requires
        i < v@.len(),
    ensures
        r@ == seq![v@[i as int]],
{
    let mut one: Vec<char> = Vec::new();
    one.push(v[i]);
    chars_to_string(&one)
}

/// The user's home directory, as a string.
///
/// Relies on `dirs::home_dir`: the platform's home directory for the
/// current user, if one is known. The result depends on the
/// environment, so nothing is promised of it.
#[verifier::external_body]
fn home_dir_string() -> (r: Option<String>) {
    dirs::home_dir().map(|p| p.to_string_lossy().to_string())
}

/// Expands a leading tilde against the current user's home directory.
/// A path without a leading tilde passes through unchanged.
pub fn expand_tilde(path: &str) -> (r: Result<String, FsError>)
    ensures
        !starts_with(path@, "~/"@) && path@ != "~"@ ==> (r matches Ok(p) && p@ == path@),
        starts_with(path@, "~/"@) || path@ == "~"@ ==> (r matches Err(e) ==> e
            == FsError::NoHomeDirectory),
{
    let home = home_dir_string();
    match &home {
        Some(h) => expand_tilde_with_home(path, Some(h.as_str())),
        None => expand_tilde_with_home(path, None),
    }
}

// ---------------------------------------------------------------------------
// The managed directory layout
// ---------------------------------------------------------------------------

/// The managed directory tree: everything lives under
/// `.local/share/cellar` in the user's home, beside the desktop
/// applications directory.
#[derive(Debug, Clone)]
pub struct CellarDirectories {
    pub base_dir: String,
    pub runners_dir: String,
    pub prefixes_dir: String,
    pub configs_dir: String,
    pub icons_dir: String,
    pub applications_dir: String,
    pub cache_dir: String,
}

impl CellarDirectories {
    /// The inter-field relations the layout maintains.
    pub open spec fn consistent(self) -> bool {
        &&& self.runners_dir@ == self.base_dir@ + "/runners"@
        &&& self.prefixes_dir@ == self.base_dir@ + "/prefixes"@
        &&& self.configs_dir@ == self.base_dir@ + "/configs"@
        &&& self.icons_dir@ == self.base_dir@ + "/icons"@
        &&& self.cache_dir@ == self.base_dir@ + "/cache"@
    }

    /// The layout rooted in the given home directory.
    pub fn from_home(home: &str) -> (r: Self)
        ensures
            r.base_dir@ == home@ + "/.local/share/cellar"@,
            r.applications_dir@ == home@ + "/.local/share/applications"@,
            r.consistent(),
    {
        let base_dir = String::from_str(home).concat("/.local/share/cellar");
        let applications_dir = String::from_str(home).concat("/.local/share/applications");
        let runners_dir = base_dir.clone().concat("/runners");
        let prefixes_dir = base_dir.clone().concat("/prefixes");
        let configs_dir = base_dir.clone().concat("/configs");
        let icons_dir = base_dir.clone().concat("/icons");
        let cache_dir = base_dir.clone().concat("/cache");
        CellarDirectories {
            base_dir,
            runners_dir,
            prefixes_dir,
            configs_dir,
            icons_dir,
            applications_dir,
            cache_dir,
        }
    }

    /// The layout rooted in the current user's home directory.
    pub fn new() -> (r: Result<Self, FsError>)
        ensures
            r matches Ok(d) ==> d.consistent(),
            r matches Err(e) ==> e == FsError::NoHomeDirectory,
    {
        match home_dir_string() {
            None => Err(FsError::NoHomeDirectory),
            Some(h) => Ok(Self::from_home(h.as_str())),
        }
    }

    /// Every directory the layout needs, deepest last; the thin I/O
    /// shell creates them in this order.
    pub fn required_directories(&self) -> (r: Vec<String>)
        ensures
            r.deep_view() == seq![
                self.base_dir@,
                self.runners_dir@,
                self.prefixes_dir@,
                self.configs_dir@,
                self.icons_dir@,
                self.applications_dir@,
                self.cache_dir@,
                self.runners_dir@ + "/proton"@,
                self.runners_dir@ + "/dxvk"@,
            ],
    {
        let mut r: Vec<String> = Vec::new();
        r.push(self.base_dir.clone());
        r.push(self.runners_dir.clone());
        r.push(self.prefixes_dir.clone());
        r.push(self.configs_dir.clone());
        r.push(self.icons_dir.clone());
        r.push(self.applications_dir.clone());
        r.push(self.cache_dir.clone());
        r.push(self.runners_dir.clone().concat("/proton"));
        r.push(self.runners_dir.clone().concat("/dxvk"));
        proof {
            assert(r.deep_view() =~~= seq![
                self.base_dir@,
                self.runners_dir@,
                self.prefixes_dir@,
                self.configs_dir@,
                self.icons_dir@,
                self.applications_dir@,
                self.cache_dir@,
                self.runners_dir@ + "/proton"@,
                self.runners_dir@ + "/dxvk"@,
            ]);
        }
        r
    }

    /// The configuration file path of a game, by its sanitized name.
    pub fn get_game_config_path(&self, game_name: &str) -> (r: String)
        ensures
            r@ == self.configs_dir@ + "/"@ + sanitize_filename_spec(game_name@) + ".toml"@,
    {
        let sanitized = sanitize_filename(game_name);
        self.configs_dir.clone().concat("/").concat(sanitized.as_str()).concat(".toml")
    }

    /// The icon file path of a game, by its sanitized name and the
    /// icon's file extension.
    pub fn get_game_icon_path(&self, game_name: &str, extension: &str) -> (r: String)
        ensures
            r@ == self.icons_dir@ + "/"@ + sanitize_filename_spec(game_name@) + "."@ + extension@,
    {
        let sanitized = sanitize_filename(game_name);
        self.icons_dir.clone().concat("/").concat(sanitized.as_str()).concat(".").concat(extension)
    }

    /// The desktop-shortcut file path of a game.
    pub fn get_game_shortcut_path(&self, game_name: &str) -> (r: String)
        ensures
            r@ == self.applications_dir@ + "/cellar-"@ + sanitize_filename_spec(game_name@)
                + ".desktop"@,
    {
        let sanitized = sanitize_filename(game_name);
        self.applications_dir.clone().concat("/cellar-").concat(sanitized.as_str()).concat(
            ".desktop",
        )
    }

    /// The runner store root.
    pub fn get_runners_path(&self) -> (r: String)
        ensures
            r@ == self.runners_dir@,
    {
        self.runners_dir.clone()
    }

    /// The prefix store root.
    pub fn get_prefixes_path(&self) -> (r: String)
        ensures
            r@ == self.prefixes_dir@,
    {
        self.prefixes_dir.clone()
    }

    /// The cache directory.
    pub fn get_cache_path(&self) -> (r: String)
        ensures
            r@ == self.cache_dir@,
    {
        self.cache_dir.clone()
    }
}

} // verus!
