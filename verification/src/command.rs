//! The launch-command compiler: builds the base invocation, the runtime
//! environment, merges the user's override string through a sanitizer,
//! and layers the optional wrappers in a fixed order
//! (overlay, compositor, scheduler hint).
//!
//! The whole pipeline is specified by pure functions over character
//! sequences; the executable builder is proved to return exactly what
//! the specification says.

use vstd::prelude::*;

use crate::chars::all_digits;
use crate::chars::all_digits_range;
use crate::chars::chars_eq;
use crate::chars::digits_value_capped;
use crate::chars::chars_to_string;
use crate::chars::contains_seq;
use crate::chars::dec_str;
use crate::chars::digits_val;
use crate::chars::is_digit;
use crate::chars::str_to_chars;
use crate::chars::u64_to_string;
use crate::config::GameConfig;
use crate::config::GamescopeConfig;

verus! {

/// Why compiling a launch command failed. All of these are raised
/// before any process is spawned.
#[derive(Debug, Clone, Copy, PartialEq, Eq, Structural)]
pub enum CommandError {
    /// No runner install path was supplied to the builder.
    MissingProtonPath,
    /// The override string has an unterminated double quote.
    UnclosedQuote,
    /// The override string holds the placeholder token more than once.
    MultiplePlaceholders,
    /// An override token failed the sanitizer.
    UnsafeOption,
    /// The compositor's upscaling mode is not one of the known values.
    InvalidUpscaling,
}

impl CommandError {
    /// A human-readable description of the error.
    pub fn message(&self) -> &'static str {
        match self {
            CommandError::MissingProtonPath => "Proton path is required for game launching",
            CommandError::UnclosedQuote => "Unclosed quote in launch options",
            CommandError::MultiplePlaceholders => "Multiple %command% placeholders found",
            CommandError::UnsafeOption => "Unsafe launch option rejected",
            CommandError::InvalidUpscaling => "Invalid upscaling method",
        }
    }
}

// ---------------------------------------------------------------------------
// Sanitizer specification
// ---------------------------------------------------------------------------

/// The shell-metacharacter denylist: any token holding one of these is
/// rejected outright.
pub open spec fn is_dangerous_char(c: char) -> bool {
    ||| c == '|'
    ||| c == '&'
    ||| c == ';'
    ||| c == '`'
    ||| c == '$'
    ||| c == '('
    ||| c == ')'
    ||| c == '{'
    ||| c == '}'
    ||| c == '['
    ||| c == ']'
    ||| c == '*'
    ||| c == '?'
    ||| c == '~'
    ||| c == '\n'
    ||| c == '\r'
    ||| c == '\t'
    ||| c == '\''
    ||| c == '"'
}

pub open spec fn has_dangerous_char(t: Seq<char>) -> bool {
    exists|i: int| 0 <= i < t.len() && is_dangerous_char(t[i])
}

/// Traversal and separator-confusion substrings.
pub open spec fn has_dangerous_pattern(t: Seq<char>) -> bool {
    ||| contains_seq(t, "../"@)
    ||| contains_seq(t, "./"@)
    ||| contains_seq(t, "//"@)
    ||| contains_seq(t, "\\\\"@)
    ||| contains_seq(t, "\n"@)
    ||| contains_seq(t, "\r"@)
}

/// The closed allowlist of flag tokens that are accepted as-is.
pub open spec fn in_allowlist(t: Seq<char>) -> bool {
    ||| t == "--fullscreen"@
    ||| t == "--windowed"@
    ||| t == "--width"@
    ||| t == "--height"@
    ||| t == "--vsync"@
    ||| t == "--no-vsync"@
    ||| t == "--dlsym"@
    ||| t == "-f"@
    ||| t == "-w"@
    ||| t == "-h"@
    ||| t == "-W"@
    ||| t == "-H"@
    ||| t == "-r"@
    ||| t == "-F"@
    ||| t == "-S"@
    ||| t == "-n"@
    ||| t == "-b"@
    ||| t == "--force-grab-cursor"@
    ||| t == "--expose-wayland"@
    ||| t == "--hdr-enabled"@
    ||| t == "--adaptive-sync"@
    ||| t == "--immediate-flips"@
    ||| t == "--mangoapp"@
}

/// The token after an optional leading sign.
pub open spec fn int_body(t: Seq<char>) -> Seq<char> {
    if t.len() > 0 && (t[0] == '+' || t[0] == '-') {
        t.drop_first()
    } else {
        t
    }
}

/// Whether `t` is a decimal integer literal that fits in a 32-bit
/// signed integer (optional sign, at least one digit).
pub open spec fn is_i32_token(t: Seq<char>) -> bool {
    let b = int_body(t);
    &&& b.len() > 0
    &&& all_digits(b)
    &&& if t.len() > 0 && t[0] == '-' {
        digits_val(b) <= 2147483648
    } else {
        digits_val(b) <= 2147483647
    }
}

/// Whether `t` is a decimal literal that fits in a 32-bit unsigned integer.
pub open spec fn is_u32_digits(t: Seq<char>) -> bool {
    t.len() > 0 && all_digits(t) && digits_val(t) <= 4294967295
}

/// `t` splits as `WIDTHxHEIGHT` at position `i`.
pub open spec fn is_res_split_at(t: Seq<char>, i: int) -> bool {
    &&& 0 <= i < t.len()
    &&& t[i] == 'x'
    &&& forall|j: int| 0 <= j < t.len() && j != i ==> t[j] != 'x'
    &&& is_u32_digits(t.subrange(0, i))
    &&& is_u32_digits(t.subrange(i + 1, t.len() as int))
}

/// Whether `t` is a `WIDTHxHEIGHT` resolution token.
pub open spec fn is_resolution_token(t: Seq<char>) -> bool {
    exists|i: int| is_res_split_at(t, i)
}

pub open spec fn is_flag_token(t: Seq<char>) -> bool {
    t.len() > 0 && t[0] == '-'
}

/// A flag token must be allowlisted, a bare integer, or a resolution.
pub open spec fn flag_allowed(t: Seq<char>) -> bool {
    in_allowlist(t) || is_i32_token(t) || is_resolution_token(t)
}

/// The sanitizer's whole decision on one token.
pub open spec fn token_is_safe(t: Seq<char>) -> bool {
    &&& !has_dangerous_char(t)
    &&& !has_dangerous_pattern(t)
    &&& (is_flag_token(t) ==> flag_allowed(t))
}

// ---------------------------------------------------------------------------
// Tokenizer specification
// ---------------------------------------------------------------------------

/// One pass of the override-string tokenizer: double quotes toggle the
/// quoting state and are dropped; spaces outside quotes end a token;
/// every other character joins the current token. Returns the tokens
/// and whether the string ended inside a quote.
pub open spec fn scan(
    s: Seq<char>,
    cur: Seq<char>,
    inq: bool,
    acc: Seq<Seq<char>>,
) -> (Seq<Seq<char>>, bool)
    decreases s.len(),
{
    if s.len() == 0 {
        (
            if cur.len() > 0 {
                acc.push(cur)
            } else {
                acc
            },
            inq,
        )
    } else {
        let c = s[0];
        let rest = s.drop_first();
        if c == '"' {
            scan(rest, cur, !inq, acc)
        } else if c == ' ' && !inq {
            scan(
                rest,
                Seq::empty(),
                false,
                if cur.len() > 0 {
                    acc.push(cur)
                } else {
                    acc
                },
            )
        } else {
            scan(rest, cur.push(c), inq, acc)
        }
    }
}

/// The raw tokens of an override string.
pub open spec fn raw_tokens(s: Seq<char>) -> Seq<Seq<char>> {
    scan(s, Seq::empty(), false, Seq::empty()).0
}

/// Whether an override string ends inside an unterminated quote.
pub open spec fn unclosed_quote(s: Seq<char>) -> bool {
    scan(s, Seq::empty(), false, Seq::empty()).1
}

pub open spec fn any_token_unsafe(toks: Seq<Seq<char>>) -> bool {
    exists|i: int| 0 <= i < toks.len() && !token_is_safe(toks[i])
}

/// The result of tokenizing and sanitizing an override string: an
/// unsafe token is reported first, then an unterminated quote.
pub open spec fn parse_spec(s: Seq<char>) -> Result<Seq<Seq<char>>, CommandError> {
    if any_token_unsafe(raw_tokens(s)) {
        Err(CommandError::UnsafeOption)
    } else if unclosed_quote(s) {
        Err(CommandError::UnclosedQuote)
    } else {
        Ok(raw_tokens(s))
    }
}

// ---------------------------------------------------------------------------
// Placeholder substitution specification
// ---------------------------------------------------------------------------

pub open spec fn is_placeholder(t: Seq<char>) -> bool {
    t == "%command%"@
}

pub open spec fn count_placeholders(toks: Seq<Seq<char>>) -> int
    decreases toks.len(),
{
    if toks.len() == 0 {
        0
    } else {
        count_placeholders(toks.drop_last()) + if is_placeholder(toks.last()) {
            1int
        } else {
            0int
        }
    }
}

/// Each placeholder token is replaced by the whole base invocation.
pub open spec fn splice_spec(toks: Seq<Seq<char>>, base: Seq<Seq<char>>) -> Seq<Seq<char>>
    decreases toks.len(),
{
    if toks.len() == 0 {
        Seq::empty()
    } else {
        (if is_placeholder(toks[0]) {
            base
        } else {
            seq![toks[0]]
        }) + splice_spec(toks.drop_first(), base)
    }
}

/// Placeholder substitution: at most one occurrence is replaced by the
/// base invocation; with none, the base invocation is appended.
pub open spec fn substitute_spec(toks: Seq<Seq<char>>, base: Seq<Seq<char>>) -> Result<
    Seq<Seq<char>>,
    CommandError,
> {
    if count_placeholders(toks) >= 2 {
        Err(CommandError::MultiplePlaceholders)
    } else if count_placeholders(toks) == 1 {
        Ok(splice_spec(toks, base))
    } else {
        Ok(toks + base)
    }
}

// ---------------------------------------------------------------------------
// Wrapper and environment specification
// ---------------------------------------------------------------------------

/// The base invocation: the runner shim, the executable, the extra
/// arguments.
pub open spec fn base_command_spec(cfg: GameConfig) -> Seq<Seq<char>> {
    seq!["umu-run"@, cfg.game.executable@] + cfg.launch.game_args.deep_view()
}

/// The overlay wrapper: prepended only when the compositor is off
/// (the compositor carries its own overlay flag instead).
pub open spec fn mangohud_wrapped(cmd: Seq<Seq<char>>, cfg: GameConfig) -> Seq<Seq<char>> {
    if cfg.launch.mangohud && !cfg.gamescope.enabled {
        seq!["mangohud"@] + cmd
    } else {
        cmd
    }
}

/// The flags selecting the compositor's upscaling mode; `None` for an
/// unknown mode.
pub open spec fn upscaling_flags(u: Seq<char>) -> Option<Seq<Seq<char>>> {
    if u == "fsr"@ {
        Some(seq!["-F"@, "fsr"@])
    } else if u == "nis"@ {
        Some(seq!["-F"@, "nis"@])
    } else if u == "integer"@ {
        Some(seq!["-S"@, "integer"@])
    } else if u == "stretch"@ {
        Some(seq!["-S"@, "stretch"@])
    } else if u == "linear"@ {
        Some(seq!["-n"@])
    } else if u == "nearest"@ {
        Some(seq!["-b"@])
    } else if u == "off"@ {
        Some(Seq::empty())
    } else {
        None
    }
}

/// The compositor's resolution and refresh-rate flags.
pub open spec fn gs_resolution_flags(g: GamescopeConfig) -> Seq<Seq<char>> {
    seq![
        "-w"@,
        dec_str(g.width as nat),
        "-h"@,
        dec_str(g.height as nat),
        "-W"@,
        dec_str(g.output_width as nat),
        "-H"@,
        dec_str(g.output_height as nat),
        "-r"@,
        dec_str(g.refresh_rate as nat),
    ]
}

/// The compositor's boolean display flags, in fixed order.
pub open spec fn gs_display_flags(g: GamescopeConfig) -> Seq<Seq<char>> {
    (if g.fullscreen {
        seq!["-f"@]
    } else {
        Seq::empty()
    }) + (if g.force_grab_cursor {
        seq!["--force-grab-cursor"@]
    } else {
        Seq::empty()
    }) + (if g.expose_wayland {
        seq!["--expose-wayland"@]
    } else {
        Seq::empty()
    }) + (if g.hdr {
        seq!["--hdr-enabled"@]
    } else {
        Seq::empty()
    }) + (if g.adaptive_sync {
        seq!["--adaptive-sync"@]
    } else {
        Seq::empty()
    }) + (if g.immediate_flips {
        seq!["--immediate-flips"@]
    } else {
        Seq::empty()
    })
}

/// The compositor wrapper: its binary, its flag list, a separator, then
/// the inner command. Fails on an unknown upscaling mode.
pub open spec fn gamescope_wrapped(cmd: Seq<Seq<char>>, cfg: GameConfig) -> Result<
    Seq<Seq<char>>,
    CommandError,
> {
    if !cfg.gamescope.enabled {
        Ok(cmd)
    } else {
        match upscaling_flags(cfg.gamescope.upscaling@) {
            None => Err(CommandError::InvalidUpscaling),
            Some(up) => Ok(
                seq!["gamescope"@] + gs_resolution_flags(cfg.gamescope) + up + gs_display_flags(
                    cfg.gamescope,
                ) + (if cfg.launch.mangohud {
                    seq!["--mangoapp"@]
                } else {
                    Seq::empty()
                }) + seq!["--"@] + cmd,
            ),
        }
    }
}

/// The scheduler-hint wrapper, outermost.
pub open spec fn gamemode_wrapped(cmd: Seq<Seq<char>>, cfg: GameConfig) -> Seq<Seq<char>> {
    if cfg.launch.gamemode {
        seq!["gamemoderun"@] + cmd
    } else {
        cmd
    }
}

/// The Wine/Proton environment, as ordered key-value pairs.
pub open spec fn wine_env_spec(cfg: GameConfig, proton_path: Option<String>) -> Seq<
    (Seq<char>, Seq<char>),
> {
    seq![("WINEARCH"@, "win64"@), ("WINEPREFIX"@, cfg.game.wine_prefix@)] + (match proton_path {
        Some(p) => seq![("PROTONPATH"@, p@)],
        None => Seq::empty(),
    }) + seq![
        ("PROTON_VERB"@, "waitforexitandrun"@),
        ("GAMEID"@, "umu-default"@),
        ("HOST_LC_ALL"@, "en_US.UTF-8"@),
    ] + (if cfg.wine_config.esync {
        seq![("WINEESYNC"@, "1"@)]
    } else {
        Seq::empty()
    }) + (if cfg.wine_config.fsync {
        seq![("WINEFSYNC"@, "1"@)]
    } else {
        Seq::empty()
    }) + (if cfg.wine_config.large_address_aware {
        seq![("WINE_LARGE_ADDRESS_AWARE"@, "1"@)]
    } else {
        Seq::empty()
    }) + seq![
        (
            "WINEDLLOVERRIDES"@,
            if cfg.wine_config.dxvk {
                "d3d10core,d3d11,d3d9,dxgi=n,b"@
            } else {
                Seq::<char>::empty()
            },
        ),
    ]
}

/// The translation-layer environment, present only when DXVK is on.
pub open spec fn dxvk_env_spec(cfg: GameConfig) -> Seq<(Seq<char>, Seq<char>)> {
    if cfg.wine_config.dxvk {
        seq![
            (
                "DXVK_HUD"@,
                if cfg.dxvk.hud@.len() > 0 {
                    cfg.dxvk.hud@
                } else {
                    "0"@
                },
            ),
        ] + (if cfg.wine_config.dxvk_async {
            seq![("DXVK_ASYNC"@, "1"@)]
        } else {
            Seq::empty()
        }) + seq![("DXVK_STATE_CACHE_PATH"@, cfg.game.wine_prefix@ + "/dxvk_cache"@)]
    } else {
        Seq::empty()
    }
}

/// The whole environment written by the compiler.
pub open spec fn env_spec(cfg: GameConfig, proton_path: Option<String>) -> Seq<
    (Seq<char>, Seq<char>),
> {
    wine_env_spec(cfg, proton_path) + dxvk_env_spec(cfg)
}

/// The spliced (pre-wrapper) command: the base invocation merged with
/// the override string, when one is set.
pub open spec fn spliced_command_spec(cfg: GameConfig) -> Result<Seq<Seq<char>>, CommandError> {
    let base = base_command_spec(cfg);
    if cfg.launch.launch_options@.len() == 0 {
        Ok(base)
    } else {
        match parse_spec(cfg.launch.launch_options@) {
            Err(e) => Err(e),
            Ok(toks) => substitute_spec(toks, base),
        }
    }
}

/// The compiled argv: splice, then overlay, compositor and scheduler
/// hint in fixed order.
pub open spec fn command_spec(cfg: GameConfig) -> Result<Seq<Seq<char>>, CommandError> {
    match spliced_command_spec(cfg) {
        Err(e) => Err(e),
        Ok(cmd) => match gamescope_wrapped(mangohud_wrapped(cmd, cfg), cfg) {
            Err(e) => Err(e),
            Ok(c2) => Ok(gamemode_wrapped(c2, cfg)),
        },
    }
}

/// Everything `build` returns: argv, environment, working directory.
pub open spec fn compile_spec(cfg: GameConfig, proton_path: Option<String>) -> Result<
    (Seq<Seq<char>>, Seq<(Seq<char>, Seq<char>)>, Seq<char>),
    CommandError,
> {
    if proton_path is None {
        Err(CommandError::MissingProtonPath)
    } else {
        match command_spec(cfg) {
            Err(e) => Err(e),
            Ok(cmd) => Ok((cmd, env_spec(cfg, proton_path), cfg.game.wine_prefix@)),
        }
    }
}

// ---------------------------------------------------------------------------
// Executable sanitizer
// ---------------------------------------------------------------------------

/// Whether the token is a decimal integer fitting a 32-bit signed value.
fn is_i32_token_exec(t: &Vec<char>) -> (r: bool)
    ensures
        r == is_i32_token(t@),
{
    let signed: bool = t.len() > 0 && (t[0] == '+' || t[0] == '-');
    let negative: bool = t.len() > 0 && t[0] == '-';
    let start: usize = if signed {
        1
    } else {
        0
    };
    proof {
        if signed {
            assert(int_body(t@) =~= t@.subrange(1, t@.len() as int));
        } else {
            assert(int_body(t@) =~= t@.subrange(0, t@.len() as int));
        }
    }
    if t.len() == start {
        return false;
    }
    if !all_digits_range(t, start, t.len()) {
        return false;
    }
    let cap: u64 = if negative {
        2147483648
    } else {
        2147483647
    };
    let val = digits_value_capped(t, start, t.len(), cap);
    val.is_some()
}

/// Whether `v[start..end]` is a decimal literal fitting a 32-bit
/// unsigned value.
fn is_u32_digits_range(v: &Vec<char>, start: usize, end: usize) -> (r: bool)
    requires
        start <= end <= v@.len(),
    ensures
        r == is_u32_digits(v@.subrange(start as int, end as int)),
{
    if end == start {
        return false;
    }
    if !all_digits_range(v, start, end) {
        return false;
    }
    let val = digits_value_capped(v, start, end, 4294967295);
    val.is_some()
}

/// Whether the token is a `WIDTHxHEIGHT` resolution.
fn is_resolution_exec(t: &Vec<char>) -> (r: bool)
    ensures
        r == is_resolution_token(t@),
{
    let mut xpos: usize = 0;
    let mut seen: bool = false;
    let mut i: usize = 0;
    while i < t.len()
        invariant
            i <= t@.len(),
            seen ==> xpos < i && t@[xpos as int] == 'x' && forall|k: int|
                0 <= k < i && k != xpos ==> t@[k] != 'x',
            !seen ==> forall|k: int| 0 <= k < i ==> t@[k] != 'x',
        decreases t@.len() - i,
    {
        if t[i] == 'x' {
            if seen {
                proof {
                    assert forall|m: int| !is_res_split_at(t@, m) by {
                        if is_res_split_at(t@, m) {
                            if m != xpos {
                                assert(t@[xpos as int] != 'x');
                            } else {
                                assert(t@[i as int] != 'x');
                            }
                        }
                    }
                }
                return false;
            }
            seen = true;
            xpos = i;
        }
        i += 1;
    }
    if !seen {
        proof {
            assert forall|m: int| !is_res_split_at(t@, m) by {
                if is_res_split_at(t@, m) {
                    assert(t@[m] != 'x');
                }
            }
        }
        return false;
    }
    let left = is_u32_digits_range(t, 0, xpos);
    let right = is_u32_digits_range(t, xpos + 1, t.len());
    if left && right {
        proof {
            assert(is_res_split_at(t@, xpos as int));
        }
        true
    } else {
        proof {
            assert forall|m: int| !is_res_split_at(t@, m) by {
                if is_res_split_at(t@, m) {
                    if m != xpos {
                        assert(t@[xpos as int] != 'x');
                    }
                }
            }
        }
        false
    }
}

/// Whether the token is in the fixed flag allowlist.
fn in_allowlist_exec(t: &Vec<char>) -> (r: bool)
    ensures
        r == in_allowlist(t@),
{
    let mut hit: bool = false;
    hit = hit || chars_eq(t, &str_to_chars("--fullscreen"));
    hit = hit || chars_eq(t, &str_to_chars("--windowed"));
    hit = hit || chars_eq(t, &str_to_chars("--width"));
    hit = hit || chars_eq(t, &str_to_chars("--height"));
    hit = hit || chars_eq(t, &str_to_chars("--vsync"));
    hit = hit || chars_eq(t, &str_to_chars("--no-vsync"));
    hit = hit || chars_eq(t, &str_to_chars("--dlsym"));
    hit = hit || chars_eq(t, &str_to_chars("-f"));
    hit = hit || chars_eq(t, &str_to_chars("-w"));
    hit = hit || chars_eq(t, &str_to_chars("-h"));
    hit = hit || chars_eq(t, &str_to_chars("-W"));
    hit = hit || chars_eq(t, &str_to_chars("-H"));
    hit = hit || chars_eq(t, &str_to_chars("-r"));
    hit = hit || chars_eq(t, &str_to_chars("-F"));
    hit = hit || chars_eq(t, &str_to_chars("-S"));
    hit = hit || chars_eq(t, &str_to_chars("-n"));
    hit = hit || chars_eq(t, &str_to_chars("-b"));
    hit = hit || chars_eq(t, &str_to_chars("--force-grab-cursor"));
    hit = hit || chars_eq(t, &str_to_chars("--expose-wayland"));
    hit = hit || chars_eq(t, &str_to_chars("--hdr-enabled"));
    hit = hit || chars_eq(t, &str_to_chars("--adaptive-sync"));
    hit = hit || chars_eq(t, &str_to_chars("--immediate-flips"));
    hit = hit || chars_eq(t, &str_to_chars("--mangoapp"));
    hit
}

/// Whether `c` is on the shell-metacharacter denylist.
fn is_dangerous_char_exec(c: char) -> (r: bool)
    ensures
        r == is_dangerous_char(c),
{
    c == '|' || c == '&' || c == ';' || c == '`' || c == '$' || c == '(' || c == ')' || c == '{'
        || c == '}' || c == '[' || c == ']' || c == '*' || c == '?' || c == '~' || c == '\n'
        || c == '\r' || c == '\t' || c == '\'' || c == '"'
}

/// Whether the token holds any denylisted character.
fn has_dangerous_char_exec(t: &Vec<char>) -> (r: bool)
    ensures
        r == has_dangerous_char(t@),
{
    let mut i: usize = 0;
    while i < t.len()
        invariant
            i <= t@.len(),
            forall|k: int| 0 <= k < i ==> !is_dangerous_char(t@[k]),
        decreases t@.len() - i,
    {
        if is_dangerous_char_exec(t[i]) {
            return true;
        }
        i += 1;
    }
    false
}

/// Whether the token holds any traversal or separator-confusion pattern.
fn has_dangerous_pattern_exec(t: &Vec<char>) -> (r: bool)
    ensures
        r == has_dangerous_pattern(t@),
{
    let mut hit: bool = false;
    hit = hit || crate::chars::contains_chars(t, &str_to_chars("../"));
    hit = hit || crate::chars::contains_chars(t, &str_to_chars("./"));
    hit = hit || crate::chars::contains_chars(t, &str_to_chars("//"));
    hit = hit || crate::chars::contains_chars(t, &str_to_chars("\\\\"));
    hit = hit || crate::chars::contains_chars(t, &str_to_chars("\n"));
    hit = hit || crate::chars::contains_chars(t, &str_to_chars("\r"));
    hit
}

/// The sanitizer's decision on one token.
fn token_is_safe_exec(t: &Vec<char>) -> (r: bool)
    ensures
        r == token_is_safe(t@),
{
    if has_dangerous_char_exec(t) {
        return false;
    }
    if has_dangerous_pattern_exec(t) {
        return false;
    }
    if t.len() > 0 && t[0] == '-' {
        in_allowlist_exec(t) || is_i32_token_exec(t) || is_resolution_exec(t)
    } else {
        true
    }
}

// ---------------------------------------------------------------------------
// Executable tokenizer
// ---------------------------------------------------------------------------

/// Splits an override string into raw tokens, reporting whether it
/// ended inside an unterminated quote.
fn tokenize(s: &str) -> (r: (Vec<Vec<char>>, bool))
    ensures
        r.0.deep_view() == raw_tokens(s@),
        r.1 == unclosed_quote(s@),
{
    let cs = str_to_chars(s);
    let mut tokens: Vec<Vec<char>> = Vec::new();
    let mut cur: Vec<char> = Vec::new();
    let mut inq: bool = false;
    let mut i: usize = 0;
    proof {
        assert(cs@.subrange(0, cs@.len() as int) =~= cs@);
        assert(tokens.deep_view() =~~= Seq::<Seq<char>>::empty());
    }
    while i < cs.len()
        invariant
            i <= cs@.len(),
            cs@ == s@,
            scan(s@, Seq::empty(), false, Seq::empty()) == scan(
                cs@.subrange(i as int, cs@.len() as int),
                cur@,
                inq,
                tokens.deep_view(),
            ),
        decreases cs@.len() - i,
    {
        let ghost rest = cs@.subrange(i as int, cs@.len() as int);
        let ghost rest2 = cs@.subrange(i + 1, cs@.len() as int);
        let ghost old_tokens = tokens.deep_view();
        let ghost old_cur = cur@;
        let ghost old_inq = inq;
        proof {
            assert(rest[0] == cs@[i as int]);
            assert(rest.drop_first() =~= rest2);
        }
        let c = cs[i];
        if c == '"' {
            inq = !inq;
            proof {
                assert(scan(rest, old_cur, old_inq, old_tokens) == scan(
                    rest2,
                    old_cur,
                    !old_inq,
                    old_tokens,
                ));
            }
        } else if c == ' ' && !inq {
            if cur.len() > 0 {
                let done = cur;
                cur = Vec::new();
                tokens.push(done);
                proof {
                    assert(tokens.deep_view() =~~= old_tokens.push(old_cur));
                    assert(scan(rest, old_cur, old_inq, old_tokens) == scan(
                        rest2,
                        Seq::empty(),
                        false,
                        old_tokens.push(old_cur),
                    ));
                }
            } else {
                proof {
                    assert(scan(rest, old_cur, old_inq, old_tokens) == scan(
                        rest2,
                        Seq::empty(),
                        false,
                        old_tokens,
                    ));
                    assert(cur@ =~= Seq::<char>::empty());
                }
            }
        } else {
            cur.push(c);
            proof {
                assert(cur@ == old_cur.push(c));
                assert(scan(rest, old_cur, old_inq, old_tokens) == scan(
                    rest2,
                    old_cur.push(c),
                    old_inq,
                    old_tokens,
                ));
            }
        }
        i += 1;
    }
    proof {
        let rest = cs@.subrange(i as int, cs@.len() as int);
        assert(rest.len() == 0);
    }
    if cur.len() > 0 {
        let ghost old_tokens = tokens.deep_view();
        let ghost old_cur = cur@;
        tokens.push(cur);
        proof {
            assert(tokens.deep_view() =~~= old_tokens.push(old_cur));
        }
    }
    (tokens, inq)
}

/// Tokenizes and sanitizes the override string; the first unsafe token
/// is reported before an unterminated quote, as the scan encounters it.
pub fn parse_launch_options(s: &str) -> (r: Result<Vec<String>, CommandError>)
    ensures
        match r {
            Ok(v) => parse_spec(s@) == Ok::<Seq<Seq<char>>, CommandError>(v.deep_view()),
            Err(e) => parse_spec(s@) == Err::<Seq<Seq<char>>, CommandError>(e),
        },
{
    let (tokens, unclosed) = tokenize(s);
    let mut i: usize = 0;
    while i < tokens.len()
        invariant
            i <= tokens@.len(),
            tokens.deep_view() == raw_tokens(s@),
            forall|k: int| 0 <= k < i ==> token_is_safe(tokens.deep_view()[k]),
        decreases tokens@.len() - i,
    {
        proof {
            assert(tokens.deep_view()[i as int] =~= tokens@[i as int]@);
        }
        if !token_is_safe_exec(&tokens[i]) {
            proof {
                assert(!token_is_safe(raw_tokens(s@)[i as int]));
                assert(any_token_unsafe(raw_tokens(s@)));
            }
            return Err(CommandError::UnsafeOption);
        }
        i += 1;
    }
    proof {
        assert(!any_token_unsafe(raw_tokens(s@)));
    }
    if unclosed {
        return Err(CommandError::UnclosedQuote);
    }
    let mut out: Vec<String> = Vec::new();
    let mut j: usize = 0;
    proof {
        assert(out.deep_view() =~~= raw_tokens(s@).subrange(0, 0));
    }
    while j < tokens.len()
        invariant
            j <= tokens@.len(),
            tokens.deep_view() == raw_tokens(s@),
            out.deep_view() == raw_tokens(s@).subrange(0, j as int),
        decreases tokens@.len() - j,
    {
        let t = chars_to_string(&tokens[j]);
        proof {
            assert(tokens.deep_view()[j as int] =~= tokens@[j as int]@);
            assert(t@ == tokens.deep_view()[j as int]);
        }
        let ghost pre_out = out.deep_view();
        out.push(t);
        j += 1;
        proof {
            assert(out.deep_view() =~~= pre_out.push(raw_tokens(s@)[j - 1]));
            assert(raw_tokens(s@).subrange(0, j as int) =~= raw_tokens(s@).subrange(
                0,
                j - 1,
            ).push(raw_tokens(s@)[j - 1]));
        }
    }
    proof {
        assert(out.deep_view() =~~= raw_tokens(s@));
    }
    Ok(out)
}

// ---------------------------------------------------------------------------
// Placeholder-substitution lemmas
// ---------------------------------------------------------------------------

pub proof fn lemma_count_nonneg(toks: Seq<Seq<char>>)
    ensures
        count_placeholders(toks) >= 0,
    decreases toks.len(),
{
    if toks.len() > 0 {
        lemma_count_nonneg(toks.drop_last());
    }
}

pub proof fn lemma_count_append(a: Seq<Seq<char>>, b: Seq<Seq<char>>)
    ensures
        count_placeholders(a + b) == count_placeholders(a) + count_placeholders(b),
    decreases b.len(),
{
    if b.len() == 0 {
        assert(a + b =~= a);
    } else {
        assert((a + b).drop_last() =~= a + b.drop_last());
        assert((a + b).last() == b.last());
        lemma_count_append(a, b.drop_last());
    }
}

/// Splicing distributes over appending one token.
pub proof fn lemma_splice_push(toks: Seq<Seq<char>>, t: Seq<char>, base: Seq<Seq<char>>)
    ensures
        splice_spec(toks.push(t), base) == splice_spec(toks, base) + (if is_placeholder(t) {
            base
        } else {
            seq![t]
        }),
    decreases toks.len(),
{
    let tail: Seq<Seq<char>> = if is_placeholder(t) {
        base
    } else {
        seq![t]
    };
    if toks.len() == 0 {
        assert(toks.push(t)[0] == t);
        assert(toks.push(t).drop_first() =~= Seq::<Seq<char>>::empty());
        assert(splice_spec(Seq::<Seq<char>>::empty(), base) == Seq::<Seq<char>>::empty());
        assert(splice_spec(toks.push(t), base) == tail + Seq::<Seq<char>>::empty());
        assert(tail + Seq::<Seq<char>>::empty() =~= tail);
        assert(splice_spec(toks, base) + tail =~= tail);
    } else {
        assert(toks.push(t)[0] == toks[0]);
        assert(toks.push(t).drop_first() =~= toks.drop_first().push(t));
        lemma_splice_push(toks.drop_first(), t, base);
        let head: Seq<Seq<char>> = if is_placeholder(toks[0]) {
            base
        } else {
            seq![toks[0]]
        };
        assert(splice_spec(toks.push(t), base) == head + (splice_spec(toks.drop_first(), base)
            + tail));
        assert(head + (splice_spec(toks.drop_first(), base) + tail) =~= (head + splice_spec(
            toks.drop_first(),
            base,
        )) + tail);
    }
}

/// With no placeholder, splicing leaves the tokens unchanged.
pub proof fn lemma_splice_no_placeholder(toks: Seq<Seq<char>>, base: Seq<Seq<char>>)
    requires
        count_placeholders(toks) == 0,
    ensures
        splice_spec(toks, base) == toks,
    decreases toks.len(),
{
    if toks.len() > 0 {
        let last = toks.last();
        let init = toks.drop_last();
        lemma_count_nonneg(init);
        assert(count_placeholders(init) == 0 && !is_placeholder(last));
        assert(toks =~= init.push(last));
        lemma_splice_no_placeholder(init, base);
        lemma_splice_push(init, last, base);
        assert(init + seq![last] =~= toks);
    } else {
        assert(splice_spec(toks, base) =~= toks);
    }
}

// ---------------------------------------------------------------------------
// Executable substitution and wrappers
// ---------------------------------------------------------------------------

/// Appends clones of all of `src` to `dst`.
fn extend_strings(dst: &mut Vec<String>, src: &Vec<String>)
    ensures
        final(dst).deep_view() == old(dst).deep_view() + src.deep_view(),
{
    let mut i: usize = 0;
    proof {
        assert(dst.deep_view() =~~= old(dst).deep_view() + src.deep_view().subrange(0, 0));
    }
    while i < src.len()
        invariant
            i <= src@.len(),
            dst.deep_view() == old(dst).deep_view() + src.deep_view().subrange(0, i as int),
        decreases src@.len() - i,
    {
        let ghost pre = dst.deep_view();
        dst.push(src[i].clone());
        i += 1;
        proof {
            assert(src.deep_view()[i - 1] =~= src@[i - 1]@);
            assert(dst.deep_view() =~~= pre.push(src.deep_view()[i - 1]));
            assert(pre.push(src.deep_view()[i - 1]) =~~= old(dst).deep_view()
                + src.deep_view().subrange(0, i as int));
        }
    }
    proof {
        assert(src.deep_view().subrange(0, src.deep_view().len() as int) =~= src.deep_view());
    }
}

/// A new argv that starts with `word` and continues with `cmd`.
fn prepend_word(word: &str, cmd: Vec<String>) -> (r: Vec<String>)
    ensures
        r.deep_view() == seq![word@] + cmd.deep_view(),
{
    let mut out: Vec<String> = Vec::new();
    out.push(String::from_str(word));
    proof {
        assert(out.deep_view() =~~= seq![word@]);
    }
    extend_strings(&mut out, &cmd);
    out
}

/// Replaces at most one placeholder token by the base invocation; with
/// none, appends the base invocation after the override tokens.
fn substitute(toks: &Vec<String>, base: &Vec<String>) -> (r: Result<Vec<String>, CommandError>)
    ensures
        match r {
            Ok(v) => substitute_spec(toks.deep_view(), base.deep_view()) == Ok::<
                Seq<Seq<char>>,
                CommandError,
            >(v.deep_view()),
            Err(e) => substitute_spec(toks.deep_view(), base.deep_view()) == Err::<
                Seq<Seq<char>>,
                CommandError,
            >(e),
        },
{
    let ghost toks_dv = toks.deep_view();
    let ghost base_dv = base.deep_view();
    let placeholder = String::from_str("%command%");
    let mut out: Vec<String> = Vec::new();
    let mut found: bool = false;
    let mut i: usize = 0;
    proof {
        assert(toks_dv.subrange(0, 0) =~= Seq::<Seq<char>>::empty());
        assert(out.deep_view() =~~= splice_spec(toks_dv.subrange(0, 0), base_dv));
    }
    while i < toks.len()
        invariant
            i <= toks@.len(),
            toks_dv == toks.deep_view(),
            base_dv == base.deep_view(),
            placeholder@ == "%command%"@,
            out.deep_view() == splice_spec(toks_dv.subrange(0, i as int), base_dv),
            count_placeholders(toks_dv.subrange(0, i as int)) == if found {
                1int
            } else {
                0int
            },
        decreases toks@.len() - i,
    {
        let ghost prefix = toks_dv.subrange(0, i as int);
        proof {
            assert(toks_dv[i as int] =~= toks@[i as int]@);
            assert(toks_dv.subrange(0, i + 1) =~= prefix.push(toks_dv[i as int]));
            assert(toks_dv.subrange(0, i + 1).drop_last() =~= prefix);
            lemma_splice_push(prefix, toks_dv[i as int], base_dv);
        }
        let is_ph = toks[i].eq(&placeholder);
        if is_ph {
            if found {
                proof {
                    let p2 = toks_dv.subrange(0, i + 1);
                    assert(count_placeholders(p2) == 2);
                    assert(toks_dv =~= p2 + toks_dv.subrange(i + 1, toks_dv.len() as int));
                    lemma_count_append(p2, toks_dv.subrange(i + 1, toks_dv.len() as int));
                    lemma_count_nonneg(toks_dv.subrange(i + 1, toks_dv.len() as int));
                }
                return Err(CommandError::MultiplePlaceholders);
            }
            found = true;
            extend_strings(&mut out, base);
        } else {
            let ghost pre = out.deep_view();
            out.push(toks[i].clone());
            proof {
                assert(out.deep_view() =~~= pre.push(toks_dv[i as int]));
                assert(pre.push(toks_dv[i as int]) =~~= pre + seq![toks_dv[i as int]]);
            }
        }
        i += 1;
    }
    proof {
        assert(toks_dv.subrange(0, toks_dv.len() as int) =~= toks_dv);
    }
    if found {
        Ok(out)
    } else {
        proof {
            lemma_splice_no_placeholder(toks_dv, base_dv);
        }
        extend_strings(&mut out, base);
        Ok(out)
    }
}

// ---------------------------------------------------------------------------
// Laws of the compiler
// ---------------------------------------------------------------------------

/// Compilation is a pure function of the configuration and the runner
/// path: compiling the same inputs twice yields the same compiled
/// command, environment and working directory.
pub proof fn lemma_compile_deterministic(
    cfg1: GameConfig,
    pp1: Option<String>,
    cfg2: GameConfig,
    pp2: Option<String>,
)
    requires
        cfg1 == cfg2,
        pp1 == pp2,
    ensures
        compile_spec(cfg1, pp1) == compile_spec(cfg2, pp2),
{
}

/// An override string with a token holding any denylisted character
/// fails to parse, with the sanitizer's error.
pub proof fn lemma_denylist_token_rejected(s: Seq<char>)
    requires
        exists|i: int|
            0 <= i < raw_tokens(s).len() && has_dangerous_char(#[trigger] raw_tokens(s)[i]),
    ensures
        parse_spec(s) == Err::<Seq<Seq<char>>, CommandError>(CommandError::UnsafeOption),
{
    let i = choose|i: int|
        0 <= i < raw_tokens(s).len() && has_dangerous_char(#[trigger] raw_tokens(s)[i]);
    assert(!token_is_safe(raw_tokens(s)[i]));
    assert(any_token_unsafe(raw_tokens(s)));
}

/// With an override token holding any denylisted character, the whole
/// compilation fails — before any substitution or wrapping happens.
pub proof fn lemma_denylist_fails_compilation(cfg: GameConfig)
    requires
        cfg.launch.launch_options@.len() > 0,
        exists|i: int|
            0 <= i < raw_tokens(cfg.launch.launch_options@).len() && has_dangerous_char(
                #[trigger] raw_tokens(cfg.launch.launch_options@)[i],
            ),
    ensures
        command_spec(cfg) == Err::<Seq<Seq<char>>, CommandError>(CommandError::UnsafeOption),
{
    lemma_denylist_token_rejected(cfg.launch.launch_options@);
}

/// Every token of a successfully parsed override string passes the
/// sanitizer.
pub proof fn lemma_parsed_tokens_safe(s: Seq<char>)
    requires
        parse_spec(s) is Ok,
    ensures
        forall|i: int|
            0 <= i < parse_spec(s)->Ok_0.len() ==> token_is_safe(#[trigger] parse_spec(s)->Ok_0[i]),
{
}

/// Every entry of a spliced command comes from the override tokens or
/// from the base invocation.
proof fn lemma_splice_elements(toks: Seq<Seq<char>>, base: Seq<Seq<char>>)
    ensures
        forall|i: int|
            0 <= i < splice_spec(toks, base).len() ==> base.contains(
                #[trigger] splice_spec(toks, base)[i],
            ) || toks.contains(splice_spec(toks, base)[i]),
    decreases toks.len(),
{
    if toks.len() > 0 {
        lemma_splice_elements(toks.drop_first(), base);
        let head: Seq<Seq<char>> = if is_placeholder(toks[0]) {
            base
        } else {
            seq![toks[0]]
        };
        let rest = splice_spec(toks.drop_first(), base);
        assert(splice_spec(toks, base) == head + rest);
        assert forall|i: int| 0 <= i < splice_spec(toks, base).len() implies base.contains(
            #[trigger] splice_spec(toks, base)[i],
        ) || toks.contains(splice_spec(toks, base)[i]) by {
            let e = splice_spec(toks, base)[i];
            if i < head.len() {
                if is_placeholder(toks[0]) {
                    assert(base[i] == e);
                } else {
                    assert(e == toks[0]);
                    assert(toks[0] == toks[0]);
                }
            } else {
                let j = i - head.len();
                assert(rest[j] == e);
                if toks.drop_first().contains(e) {
                    let k = choose|k: int|
                        0 <= k < toks.drop_first().len() && toks.drop_first()[k] == e;
                    assert(toks[k + 1] == e);
                }
            }
        }
    }
}

/// The decimal digits of a number are digits.
proof fn lemma_dec_str_digits(n: nat)
    ensures
        all_digits(dec_str(n)),
    decreases n,
{
    if n >= 10 {
        lemma_dec_str_digits(n / 10);
        assert(dec_str(n).drop_last() =~= dec_str(n / 10));
        assert forall|i: int| 0 <= i < dec_str(n).len() implies is_digit(
            #[trigger] dec_str(n)[i],
        ) by {
            if i < dec_str(n).len() - 1 {
                assert(dec_str(n)[i] == dec_str(n / 10)[i]);
            }
        }
    }
}

/// Digits are never denylisted.
proof fn lemma_digits_not_dangerous(t: Seq<char>)
    requires
        all_digits(t),
    ensures
        !has_dangerous_char(t),
{
}

/// The wrapper vocabulary: every argv entry a wrapper stage may add.
pub open spec fn wrapper_entry(e: Seq<char>, cfg: GameConfig) -> bool {
    ||| e == "mangohud"@
    ||| e == "gamemoderun"@
    ||| e == "gamescope"@
    ||| e == "--"@
    ||| e == "--mangoapp"@
    ||| e == "-w"@
    ||| e == "-h"@
    ||| e == "-W"@
    ||| e == "-H"@
    ||| e == "-r"@
    ||| e == "-F"@
    ||| e == "-S"@
    ||| e == "-n"@
    ||| e == "-b"@
    ||| e == "-f"@
    ||| e == "--force-grab-cursor"@
    ||| e == "--expose-wayland"@
    ||| e == "--hdr-enabled"@
    ||| e == "--adaptive-sync"@
    ||| e == "--immediate-flips"@
    ||| e == "fsr"@
    ||| e == "nis"@
    ||| e == "integer"@
    ||| e == "stretch"@
    ||| e == dec_str(cfg.gamescope.width as nat)
    ||| e == dec_str(cfg.gamescope.height as nat)
    ||| e == dec_str(cfg.gamescope.output_width as nat)
    ||| e == dec_str(cfg.gamescope.output_height as nat)
    ||| e == dec_str(cfg.gamescope.refresh_rate as nat)
}

/// No word a wrapper stage adds holds a denylisted character.
proof fn lemma_wrapper_entries_clean(e: Seq<char>, cfg: GameConfig)
    requires
        wrapper_entry(e, cfg),
    ensures
        !has_dangerous_char(e),
{
    reveal_strlit("mangohud");
    reveal_strlit("gamemoderun");
    reveal_strlit("gamescope");
    reveal_strlit("--");
    reveal_strlit("--mangoapp");
    reveal_strlit("-w");
    reveal_strlit("-h");
    reveal_strlit("-W");
    reveal_strlit("-H");
    reveal_strlit("-r");
    reveal_strlit("-F");
    reveal_strlit("-S");
    reveal_strlit("-n");
    reveal_strlit("-b");
    reveal_strlit("-f");
    reveal_strlit("--force-grab-cursor");
    reveal_strlit("--expose-wayland");
    reveal_strlit("--hdr-enabled");
    reveal_strlit("--adaptive-sync");
    reveal_strlit("--immediate-flips");
    reveal_strlit("fsr");
    reveal_strlit("nis");
    reveal_strlit("integer");
    reveal_strlit("stretch");
    lemma_dec_str_digits(cfg.gamescope.width as nat);
    lemma_dec_str_digits(cfg.gamescope.height as nat);
    lemma_dec_str_digits(cfg.gamescope.output_width as nat);
    lemma_dec_str_digits(cfg.gamescope.output_height as nat);
    lemma_dec_str_digits(cfg.gamescope.refresh_rate as nat);
}

/// Every entry of the compiled argv is a wrapper word, a safe override
/// token, or comes from the base invocation itself.
proof fn lemma_command_entries(cfg: GameConfig)
    requires
        command_spec(cfg) is Ok,
    ensures
        forall|i: int|
            0 <= i < command_spec(cfg)->Ok_0.len() ==> {
                let e = #[trigger] command_spec(cfg)->Ok_0[i];
                base_command_spec(cfg).contains(e) || token_is_safe(e) || wrapper_entry(e, cfg)
            },
{
    let base = base_command_spec(cfg);
    let spliced = spliced_command_spec(cfg)->Ok_0;
    // Every spliced entry is a base entry or a safe override token.
    assert forall|i: int| 0 <= i < spliced.len() implies base.contains(#[trigger] spliced[i])
        || token_is_safe(spliced[i]) by {
        if cfg.launch.launch_options@.len() == 0 {
        } else {
            let toks = parse_spec(cfg.launch.launch_options@)->Ok_0;
            lemma_parsed_tokens_safe(cfg.launch.launch_options@);
            if count_placeholders(toks) == 1 {
                lemma_splice_elements(toks, base);
                if toks.contains(spliced[i]) {
                    let k = choose|k: int| 0 <= k < toks.len() && toks[k] == spliced[i];
                    assert(token_is_safe(toks[k]));
                }
            } else {
                assert(spliced == toks + base);
                if i < toks.len() {
                    assert(spliced[i] == toks[i]);
                } else {
                    assert(spliced[i] == base[i - toks.len()]);
                }
            }
        }
    }
    let m = mangohud_wrapped(spliced, cfg);
    assert forall|i: int| 0 <= i < m.len() implies base.contains(#[trigger] m[i]) || token_is_safe(
        m[i],
    ) || wrapper_entry(m[i], cfg) by {
        if cfg.launch.mangohud && !cfg.gamescope.enabled {
            if i >= 1 {
                assert(m[i] == spliced[i - 1]);
            }
        }
    }
    let g = gamescope_wrapped(m, cfg)->Ok_0;
    assert forall|i: int| 0 <= i < g.len() implies base.contains(#[trigger] g[i]) || token_is_safe(
        g[i],
    ) || wrapper_entry(g[i], cfg) by {
        if cfg.gamescope.enabled {
            let up = upscaling_flags(cfg.gamescope.upscaling@)->Some_0;
            let head = seq!["gamescope"@] + gs_resolution_flags(cfg.gamescope) + up
                + gs_display_flags(cfg.gamescope) + (if cfg.launch.mangohud {
                seq!["--mangoapp"@]
            } else {
                Seq::<Seq<char>>::empty()
            }) + seq!["--"@];
            assert(g == head + m);
            if i < head.len() {
                assert(wrapper_entry(g[i], cfg));
            } else {
                assert(g[i] == m[i - head.len()]);
            }
        }
    }
    let f = gamemode_wrapped(g, cfg);
    assert forall|i: int| 0 <= i < f.len() implies base.contains(#[trigger] f[i]) || token_is_safe(
        f[i],
    ) || wrapper_entry(f[i], cfg) by {
        if cfg.launch.gamemode {
            if i >= 1 {
                assert(f[i] == g[i - 1]);
            }
        }
    }
}

/// No denylisted character ever reaches a compiled argv entry, except
/// inside the base invocation itself (the configured executable path
/// and arguments, which do not pass through the sanitizer).
pub proof fn lemma_denylist_never_reaches_argv(cfg: GameConfig)
    requires
        command_spec(cfg) is Ok,
    ensures
        forall|i: int|
            0 <= i < command_spec(cfg)->Ok_0.len() && has_dangerous_char(
                #[trigger] command_spec(cfg)->Ok_0[i],
            ) ==> base_command_spec(cfg).contains(command_spec(cfg)->Ok_0[i]),
{
    lemma_command_entries(cfg);
    assert forall|i: int|
        0 <= i < command_spec(cfg)->Ok_0.len() && has_dangerous_char(
            #[trigger] command_spec(cfg)->Ok_0[i],
        ) implies base_command_spec(cfg).contains(command_spec(cfg)->Ok_0[i]) by {
        let e = command_spec(cfg)->Ok_0[i];
        if wrapper_entry(e, cfg) {
            lemma_wrapper_entries_clean(e, cfg);
        }
    }
}

/// No key occurs twice.
pub open spec fn env_keys_unique(env: Seq<(Seq<char>, Seq<char>)>) -> bool {
    forall|i: int, j: int| 0 <= i < j < env.len() ==> (#[trigger] env[i]).0 != (#[trigger] env[j]).0
}

/// The ten keys the Wine stage may write.
pub open spec fn is_wine_key(k: Seq<char>) -> bool {
    ||| k == "WINEARCH"@
    ||| k == "WINEPREFIX"@
    ||| k == "PROTONPATH"@
    ||| k == "PROTON_VERB"@
    ||| k == "GAMEID"@
    ||| k == "HOST_LC_ALL"@
    ||| k == "WINEESYNC"@
    ||| k == "WINEFSYNC"@
    ||| k == "WINE_LARGE_ADDRESS_AWARE"@
    ||| k == "WINEDLLOVERRIDES"@
}

/// The three keys the DXVK stage may write.
pub open spec fn is_dxvk_key(k: Seq<char>) -> bool {
    ||| k == "DXVK_HUD"@
    ||| k == "DXVK_ASYNC"@
    ||| k == "DXVK_STATE_CACHE_PATH"@
}

/// The key at position `i` of the Wine environment, by the layout of
/// `wine_env_spec`.
pub open spec fn wine_key_expected(cfg: GameConfig, pp: Option<String>, i: int) -> Seq<char> {
    let np: int = if pp is Some {
        1
    } else {
        0
    };
    let ne: int = if cfg.wine_config.esync {
        1
    } else {
        0
    };
    let nf: int = if cfg.wine_config.fsync {
        1
    } else {
        0
    };
    if i == 0 {
        "WINEARCH"@
    } else if i == 1 {
        "WINEPREFIX"@
    } else if i < 2 + np {
        "PROTONPATH"@
    } else if i == 2 + np {
        "PROTON_VERB"@
    } else if i == 3 + np {
        "GAMEID"@
    } else if i == 4 + np {
        "HOST_LC_ALL"@
    } else if i < 5 + np + ne {
        "WINEESYNC"@
    } else if i < 5 + np + ne + nf {
        "WINEFSYNC"@
    } else if i < wine_env_spec(cfg, pp).len() - 1 {
        "WINE_LARGE_ADDRESS_AWARE"@
    } else {
        "WINEDLLOVERRIDES"@
    }
}

/// Each position of the Wine environment carries the key its layout
/// assigns to it.
proof fn lemma_wine_env_key_at(cfg: GameConfig, pp: Option<String>, i: int)
    requires
        0 <= i < wine_env_spec(cfg, pp).len(),
    ensures
        wine_env_spec(cfg, pp)[i].0 == wine_key_expected(cfg, pp, i),
{
}

/// The key at position `i` of the DXVK environment, by the layout of
/// `dxvk_env_spec`.
pub open spec fn dxvk_key_expected(cfg: GameConfig, i: int) -> Seq<char> {
    if i == 0 {
        "DXVK_HUD"@
    } else if i < dxvk_env_spec(cfg).len() - 1 {
        "DXVK_ASYNC"@
    } else {
        "DXVK_STATE_CACHE_PATH"@
    }
}

/// Each position of the DXVK environment carries the key its layout
/// assigns to it.
proof fn lemma_dxvk_env_key_at(cfg: GameConfig, i: int)
    requires
        0 <= i < dxvk_env_spec(cfg).len(),
    ensures
        dxvk_env_spec(cfg)[i].0 == dxvk_key_expected(cfg, i),
{
}

/// The compiler writes every environment key at most once.
#[verifier::rlimit(100)]
#[verifier::spinoff_prover]
pub proof fn lemma_env_keys_unique(cfg: GameConfig, pp: Option<String>)
    ensures
        env_keys_unique(env_spec(cfg, pp)),
{
    reveal_strlit("WINEARCH");
    reveal_strlit("WINEPREFIX");
    reveal_strlit("PROTONPATH");
    reveal_strlit("PROTON_VERB");
    reveal_strlit("GAMEID");
    reveal_strlit("HOST_LC_ALL");
    reveal_strlit("WINEESYNC");
    reveal_strlit("WINEFSYNC");
    reveal_strlit("WINE_LARGE_ADDRESS_AWARE");
    reveal_strlit("WINEDLLOVERRIDES");
    reveal_strlit("DXVK_HUD");
    reveal_strlit("DXVK_ASYNC");
    reveal_strlit("DXVK_STATE_CACHE_PATH");
    assert("WINEARCH"@.len() == 8);
    assert("WINEPREFIX"@.len() == 10);
    assert("PROTONPATH"@.len() == 10);
    assert("PROTON_VERB"@.len() == 11);
    assert("GAMEID"@.len() == 6);
    assert("HOST_LC_ALL"@.len() == 11);
    assert("WINEESYNC"@.len() == 9);
    assert("WINEFSYNC"@.len() == 9);
    assert("WINE_LARGE_ADDRESS_AWARE"@.len() == 24);
    assert("WINEDLLOVERRIDES"@.len() == 16);
    assert("DXVK_HUD"@.len() == 8);
    assert("DXVK_ASYNC"@.len() == 10);
    assert("DXVK_STATE_CACHE_PATH"@.len() == 21);
    assert("WINEARCH"@ != "DXVK_HUD"@) by {
        assert("WINEARCH"@[0] == 'W' && "DXVK_HUD"@[0] == 'D');
    }
    assert("WINEPREFIX"@ != "PROTONPATH"@) by {
        assert("WINEPREFIX"@[0] == 'W' && "PROTONPATH"@[0] == 'P');
    }
    assert("WINEPREFIX"@ != "DXVK_ASYNC"@) by {
        assert("WINEPREFIX"@[0] == 'W' && "DXVK_ASYNC"@[0] == 'D');
    }
    assert("PROTONPATH"@ != "DXVK_ASYNC"@) by {
        assert("PROTONPATH"@[0] == 'P' && "DXVK_ASYNC"@[0] == 'D');
    }
    assert("PROTON_VERB"@ != "HOST_LC_ALL"@) by {
        assert("PROTON_VERB"@[0] == 'P' && "HOST_LC_ALL"@[0] == 'H');
    }
    assert("WINEESYNC"@ != "WINEFSYNC"@) by {
        assert("WINEESYNC"@[4] == 'E' && "WINEFSYNC"@[4] == 'F');
    }
    let w = wine_env_spec(cfg, pp);
    let d = dxvk_env_spec(cfg);
    let e = env_spec(cfg, pp);
    let p_arch = seq![("WINEARCH"@, "win64"@), ("WINEPREFIX"@, cfg.game.wine_prefix@)];
    let p_proton: Seq<(Seq<char>, Seq<char>)> = match pp {
        Some(p) => seq![("PROTONPATH"@, p@)],
        None => Seq::empty(),
    };
    let p_fixed = seq![
        ("PROTON_VERB"@, "waitforexitandrun"@),
        ("GAMEID"@, "umu-default"@),
        ("HOST_LC_ALL"@, "en_US.UTF-8"@),
    ];
    let p_esync: Seq<(Seq<char>, Seq<char>)> = if cfg.wine_config.esync {
        seq![("WINEESYNC"@, "1"@)]
    } else {
        Seq::empty()
    };
    let p_fsync: Seq<(Seq<char>, Seq<char>)> = if cfg.wine_config.fsync {
        seq![("WINEFSYNC"@, "1"@)]
    } else {
        Seq::empty()
    };
    let p_laa: Seq<(Seq<char>, Seq<char>)> = if cfg.wine_config.large_address_aware {
        seq![("WINE_LARGE_ADDRESS_AWARE"@, "1"@)]
    } else {
        Seq::empty()
    };
    let p_dll = seq![
        (
            "WINEDLLOVERRIDES"@,
            if cfg.wine_config.dxvk {
                "d3d10core,d3d11,d3d9,dxgi=n,b"@
            } else {
                Seq::<char>::empty()
            },
        ),
    ];
    assert(w == p_arch + p_proton + p_fixed + p_esync + p_fsync + p_laa + p_dll);
    assert(env_keys_unique(w)) by {
        assert forall|i: int, j: int| 0 <= i < j < w.len() implies (#[trigger] w[i]).0 != (
        #[trigger] w[j]).0 by {
            lemma_wine_env_key_at(cfg, pp, i);
            lemma_wine_env_key_at(cfg, pp, j);
        }
    }
    assert(env_keys_unique(d)) by {
        assert forall|i: int, j: int| 0 <= i < j < d.len() implies (#[trigger] d[i]).0 != (
        #[trigger] d[j]).0 by {
            lemma_dxvk_env_key_at(cfg, i);
            lemma_dxvk_env_key_at(cfg, j);
        }
    }
    assert forall|i: int| 0 <= i < w.len() implies is_wine_key((#[trigger] w[i]).0) by {
        lemma_wine_env_key_at(cfg, pp, i);
    }
    assert forall|j: int| 0 <= j < d.len() implies is_dxvk_key((#[trigger] d[j]).0) by {
        lemma_dxvk_env_key_at(cfg, j);
    }
    assert forall|i: int, j: int| 0 <= i < j < e.len() implies (#[trigger] e[i]).0 != (
    #[trigger] e[j]).0 by {
        if j < w.len() {
            assert(e[i] == w[i] && e[j] == w[j]);
        } else if i >= w.len() {
            assert(e[i] == d[i - w.len()] && e[j] == d[j - w.len()]);
        } else {
            assert(e[i] == w[i] && e[j] == d[j - w.len()]);
            assert(is_wine_key(w[i].0) && is_dxvk_key(d[j - w.len()].0));
        }
    }
}

/// A compiled argv is never empty: it always holds at least the base
/// invocation or a wrapper in front of it.
pub proof fn lemma_compiled_argv_nonempty(cfg: GameConfig)
    requires
        command_spec(cfg) is Ok,
    ensures
        command_spec(cfg)->Ok_0.len() > 0,
{
    let base = base_command_spec(cfg);
    let spliced = spliced_command_spec(cfg)->Ok_0;
    assert(base.len() >= 2);
    if cfg.launch.launch_options@.len() != 0 {
        let toks = parse_spec(cfg.launch.launch_options@)->Ok_0;
        if count_placeholders(toks) == 1 {
            lemma_count_nonneg(toks.drop_last());
            assert(toks.len() > 0);
            assert(spliced == splice_spec(toks, base));
            assert(spliced.len() > 0) by {
                let head: Seq<Seq<char>> = if is_placeholder(toks[0]) {
                    base
                } else {
                    seq![toks[0]]
                };
                assert(splice_spec(toks, base) == head + splice_spec(toks.drop_first(), base));
                if !is_placeholder(toks[0]) {
                    assert(head.len() == 1);
                }
            }
        }
    }
}

// ---------------------------------------------------------------------------
// The builder
// ---------------------------------------------------------------------------

/// First match wins: the value bound to `k`, if any.
pub open spec fn env_lookup(env: Seq<(Seq<char>, Seq<char>)>, k: Seq<char>) -> Option<Seq<char>>
    decreases env.len(),
{
    if env.len() == 0 {
        None
    } else if env[0].0 == k {
        Some(env[0].1)
    } else {
        env_lookup(env.drop_first(), k)
    }
}

/// The compiled invocation: argv, environment, and the working
/// directory (the runtime prefix root).
#[derive(Debug, Clone)]
pub struct LaunchCommand {
    pub command: Vec<String>,
    pub environment: Vec<(String, String)>,
    pub working_directory: String,
}

impl LaunchCommand {
    /// The value the environment binds to `key`, if any.
    pub fn env_value(&self, key: &str) -> (r: Option<&String>)
        ensures
            match r {
                Some(v) => env_lookup(self.environment.deep_view(), key@) == Some(v@),
                None => env_lookup(self.environment.deep_view(), key@) is None,
            },
    {
        let kc = str_to_chars(key);
        let ghost dv = self.environment.deep_view();
        let mut i: usize = 0;
        proof {
            assert(dv.subrange(0, dv.len() as int) =~= dv);
        }
        while i < self.environment.len()
            invariant
                i <= self.environment@.len(),
                dv == self.environment.deep_view(),
                kc@ == key@,
                env_lookup(dv, key@) == env_lookup(
                    dv.subrange(i as int, dv.len() as int),
                    key@,
                ),
            decreases self.environment@.len() - i,
        {
            let ghost rest = dv.subrange(i as int, dv.len() as int);
            proof {
                assert(rest[0] == dv[i as int]);
                assert(rest.drop_first() =~= dv.subrange(i + 1, dv.len() as int));
            }
            let pair_key = str_to_chars(self.environment[i].0.as_str());
            if chars_eq(&pair_key, &kc) {
                return Some(&self.environment[i].1);
            }
            i += 1;
        }
        None
    }

    /// Whether the environment binds `key`.
    pub fn env_contains(&self, key: &str) -> (r: bool)
        ensures
            r == (env_lookup(self.environment.deep_view(), key@) is Some),
    {
        self.env_value(key).is_some()
    }
}

/// Builds launch commands for one game configuration.
#[derive(Debug, Clone)]
pub struct CommandBuilder {
    pub config: GameConfig,
    pub proton_path: Option<String>,
}

impl CommandBuilder {
    /// A builder for `config`, with no runner path resolved yet.
    pub fn new(config: GameConfig) -> (r: Self)
        ensures
            r.config == config,
            r.proton_path is None,
    {
        CommandBuilder { config, proton_path: None }
    }

    /// The same builder with the runner install path set.
    pub fn with_proton_path(self, proton_path: String) -> (r: Self)
        ensures
            r.config == self.config,
            r.proton_path == Some(proton_path),
    {
        CommandBuilder { config: self.config, proton_path: Some(proton_path) }
    }

    /// The base invocation that the placeholder stands for.
    fn build_base_command(&self) -> (r: Vec<String>)
        ensures
            r.deep_view() == base_command_spec(self.config),
    {
        let mut cmd: Vec<String> = Vec::new();
        cmd.push(String::from_str("umu-run"));
        cmd.push(self.config.game.executable.clone());
        proof {
            assert(cmd.deep_view() =~~= seq!["umu-run"@, self.config.game.executable@]);
        }
        extend_strings(&mut cmd, &self.config.launch.game_args);
        cmd
    }

    /// The Wine/Proton environment variables.
    fn build_wine_environment(&self) -> (r: Vec<(String, String)>)
        ensures
            r.deep_view() == wine_env_spec(self.config, self.proton_path),
    {
        let mut env: Vec<(String, String)> = Vec::new();
        env.push((String::from_str("WINEARCH"), String::from_str("win64")));
        env.push((String::from_str("WINEPREFIX"), self.config.game.wine_prefix.clone()));
        match &self.proton_path {
            Some(p) => {
                env.push((String::from_str("PROTONPATH"), p.clone()));
            },
            None => {},
        }
        env.push((String::from_str("PROTON_VERB"), String::from_str("waitforexitandrun")));
        env.push((String::from_str("GAMEID"), String::from_str("umu-default")));
        env.push((String::from_str("HOST_LC_ALL"), String::from_str("en_US.UTF-8")));
        if self.config.wine_config.esync {
            env.push((String::from_str("WINEESYNC"), String::from_str("1")));
        }
        if self.config.wine_config.fsync {
            env.push((String::from_str("WINEFSYNC"), String::from_str("1")));
        }
        if self.config.wine_config.large_address_aware {
            env.push((String::from_str("WINE_LARGE_ADDRESS_AWARE"), String::from_str("1")));
        }
        if self.config.wine_config.dxvk {
            env.push((
                String::from_str("WINEDLLOVERRIDES"),
                String::from_str("d3d10core,d3d11,d3d9,dxgi=n,b"),
            ));
        } else {
            env.push((String::from_str("WINEDLLOVERRIDES"), String::new()));
        }
        proof {
            assert(env.deep_view() =~~= wine_env_spec(self.config, self.proton_path));
        }
        env
    }

    /// The translation-layer environment variables.
    fn build_dxvk_environment(&self) -> (r: Vec<(String, String)>)
        ensures
            r.deep_view() == dxvk_env_spec(self.config),
    {
        let mut env: Vec<(String, String)> = Vec::new();
        if self.config.wine_config.dxvk {
            if self.config.dxvk.hud.as_str().is_empty() {
                env.push((String::from_str("DXVK_HUD"), String::from_str("0")));
            } else {
                env.push((String::from_str("DXVK_HUD"), self.config.dxvk.hud.clone()));
            }
            if self.config.wine_config.dxvk_async {
                env.push((String::from_str("DXVK_ASYNC"), String::from_str("1")));
            }
            let cache_path = self.config.game.wine_prefix.clone().concat("/dxvk_cache");
            env.push((String::from_str("DXVK_STATE_CACHE_PATH"), cache_path));
        }
        proof {
            assert(env.deep_view() =~~= dxvk_env_spec(self.config));
        }
        env
    }

    /// The overlay wrapper; skipped when the compositor is on.
    fn wrap_with_mangohud(&self, command: Vec<String>) -> (r: Vec<String>)
        ensures
            r.deep_view() == mangohud_wrapped(command.deep_view(), self.config),
    {
        if !self.config.launch.mangohud || self.config.gamescope.enabled {
            return command;
        }
        prepend_word("mangohud", command)
    }

    /// The compositor wrapper with its flag list; fails on an unknown
    /// upscaling mode.
    #[verifier::rlimit(100)]
    fn wrap_with_gamescope(&self, command: Vec<String>) -> (r: Result<Vec<String>, CommandError>)
        ensures
            match r {
                Ok(v) => gamescope_wrapped(command.deep_view(), self.config) == Ok::<
                    Seq<Seq<char>>,
                    CommandError,
                >(v.deep_view()),
                Err(e) => gamescope_wrapped(command.deep_view(), self.config) == Err::<
                    Seq<Seq<char>>,
                    CommandError,
                >(e),
            },
    {
        if !self.config.gamescope.enabled {
            return Ok(command);
        }
        let g = &self.config.gamescope;
        let mut cmd: Vec<String> = Vec::new();
        cmd.push(String::from_str("gamescope"));
        cmd.push(String::from_str("-w"));
        cmd.push(u64_to_string(g.width as u64));
        cmd.push(String::from_str("-h"));
        cmd.push(u64_to_string(g.height as u64));
        cmd.push(String::from_str("-W"));
        cmd.push(u64_to_string(g.output_width as u64));
        cmd.push(String::from_str("-H"));
        cmd.push(u64_to_string(g.output_height as u64));
        cmd.push(String::from_str("-r"));
        cmd.push(u64_to_string(g.refresh_rate as u64));
        proof {
            assert(cmd.deep_view() =~~= seq!["gamescope"@] + gs_resolution_flags(
                self.config.gamescope,
            ));
        }
        let up = str_to_chars(g.upscaling.as_str());
        if chars_eq(&up, &str_to_chars("fsr")) {
            cmd.push(String::from_str("-F"));
            cmd.push(String::from_str("fsr"));
        } else if chars_eq(&up, &str_to_chars("nis")) {
            cmd.push(String::from_str("-F"));
            cmd.push(String::from_str("nis"));
        } else if chars_eq(&up, &str_to_chars("integer")) {
            cmd.push(String::from_str("-S"));
            cmd.push(String::from_str("integer"));
        } else if chars_eq(&up, &str_to_chars("stretch")) {
            cmd.push(String::from_str("-S"));
            cmd.push(String::from_str("stretch"));
        } else if chars_eq(&up, &str_to_chars("linear")) {
            cmd.push(String::from_str("-n"));
        } else if chars_eq(&up, &str_to_chars("nearest")) {
            cmd.push(String::from_str("-b"));
        } else if chars_eq(&up, &str_to_chars("off")) {
        } else {
            return Err(CommandError::InvalidUpscaling);
        }
        proof {
            assert(upscaling_flags(self.config.gamescope.upscaling@) is Some);
            assert(cmd.deep_view() =~~= seq!["gamescope"@] + gs_resolution_flags(
                self.config.gamescope,
            ) + upscaling_flags(self.config.gamescope.upscaling@)->Some_0);
        }
        if g.fullscreen {
            cmd.push(String::from_str("-f"));
        }
        if g.force_grab_cursor {
            cmd.push(String::from_str("--force-grab-cursor"));
        }
        if g.expose_wayland {
            cmd.push(String::from_str("--expose-wayland"));
        }
        if g.hdr {
            cmd.push(String::from_str("--hdr-enabled"));
        }
        if g.adaptive_sync {
            cmd.push(String::from_str("--adaptive-sync"));
        }
        if g.immediate_flips {
            cmd.push(String::from_str("--immediate-flips"));
        }
        if self.config.launch.mangohud {
            cmd.push(String::from_str("--mangoapp"));
        }
        cmd.push(String::from_str("--"));
        proof {
            assert(cmd.deep_view() =~~= seq!["gamescope"@] + gs_resolution_flags(
                self.config.gamescope,
            ) + upscaling_flags(self.config.gamescope.upscaling@)->Some_0 + gs_display_flags(
                self.config.gamescope,
            ) + (if self.config.launch.mangohud {
                seq!["--mangoapp"@]
            } else {
                Seq::<Seq<char>>::empty()
            }) + seq!["--"@]);
        }
        extend_strings(&mut cmd, &command);
        proof {
            assert(cmd.deep_view() =~~= seq!["gamescope"@] + gs_resolution_flags(
                self.config.gamescope,
            ) + upscaling_flags(self.config.gamescope.upscaling@)->Some_0 + gs_display_flags(
                self.config.gamescope,
            ) + (if self.config.launch.mangohud {
                seq!["--mangoapp"@]
            } else {
                Seq::<Seq<char>>::empty()
            }) + seq!["--"@] + command.deep_view());
        }
        Ok(cmd)
    }

    /// The scheduler-hint wrapper, outermost.
    fn wrap_with_gamemode(&self, command: Vec<String>) -> (r: Vec<String>)
        ensures
            r.deep_view() == gamemode_wrapped(command.deep_view(), self.config),
    {
        if !self.config.launch.gamemode {
            return command;
        }
        prepend_word("gamemoderun", command)
    }

    /// Merges the override string with the base invocation.
    fn process_launch_options(&self, base_command: Vec<String>) -> (r: Result<
        Vec<String>,
        CommandError,
    >)
        requires
            base_command.deep_view() == base_command_spec(self.config),
        ensures
            match r {
                Ok(v) => spliced_command_spec(self.config) == Ok::<Seq<Seq<char>>, CommandError>(
                    v.deep_view(),
                ),
                Err(e) => spliced_command_spec(self.config) == Err::<Seq<Seq<char>>, CommandError>(
                    e,
                ),
            },
    {
        if self.config.launch.launch_options.as_str().is_empty() {
            return Ok(base_command);
        }
        let toks = match parse_launch_options(self.config.launch.launch_options.as_str()) {
            Err(e) => {
                return Err(e);
            },
            Ok(t) => t,
        };
        match substitute(&toks, &base_command) {
            Err(e) => Err(e),
            Ok(v) => Ok(v),
        }
    }

    /// Compiles the full launch command: base invocation, environment,
    /// override merge, and the wrappers in fixed order.
    pub fn build(&self) -> (r: Result<LaunchCommand, CommandError>)
        ensures
            r matches Ok(lc) ==> compile_spec(self.config, self.proton_path) == Ok::<
                (Seq<Seq<char>>, Seq<(Seq<char>, Seq<char>)>, Seq<char>),
                CommandError,
            >((lc.command.deep_view(), lc.environment.deep_view(), lc.working_directory@)),
            r matches Err(e) ==> compile_spec(self.config, self.proton_path) == Err::<
                (Seq<Seq<char>>, Seq<(Seq<char>, Seq<char>)>, Seq<char>),
                CommandError,
            >(e),
    {
        if self.proton_path.is_none() {
            return Err(CommandError::MissingProtonPath);
        }
        let base_command = self.build_base_command();
        let mut env_vars = self.build_wine_environment();
        let dxvk_env = self.build_dxvk_environment();
        let ghost wine_dv = env_vars.deep_view();
        let mut k: usize = 0;
        while k < dxvk_env.len()
            invariant
                k <= dxvk_env@.len(),
                dxvk_env.deep_view() == dxvk_env_spec(self.config),
                env_vars.deep_view() == wine_dv + dxvk_env.deep_view().subrange(0, k as int),
            decreases dxvk_env@.len() - k,
        {
            let ghost pre = env_vars.deep_view();
            let key = dxvk_env[k].0.clone();
            let value = dxvk_env[k].1.clone();
            env_vars.push((key, value));
            k += 1;
            proof {
                assert(env_vars.deep_view() =~~= pre.push(dxvk_env.deep_view()[k - 1]));
                assert(pre.push(dxvk_env.deep_view()[k - 1]) =~~= wine_dv
                    + dxvk_env.deep_view().subrange(0, k as int));
            }
        }
        proof {
            assert(dxvk_env.deep_view().subrange(0, dxvk_env.deep_view().len() as int)
                =~= dxvk_env.deep_view());
            assert(env_vars.deep_view() == env_spec(self.config, self.proton_path));
        }
        let final_command = match self.process_launch_options(base_command) {
            Err(e) => {
                return Err(e);
            },
            Ok(v) => v,
        };
        let mangohud_wrapped_cmd = self.wrap_with_mangohud(final_command);
        let gamescope_wrapped_cmd = match self.wrap_with_gamescope(mangohud_wrapped_cmd) {
            Err(e) => {
                return Err(e);
            },
            Ok(v) => v,
        };
        let gamemode_wrapped_cmd = self.wrap_with_gamemode(gamescope_wrapped_cmd);
        Ok(
            LaunchCommand {
                command: gamemode_wrapped_cmd,
                environment: env_vars,
                working_directory: self.config.game.wine_prefix.clone(),
            },
        )
    }
}

} // verus!
