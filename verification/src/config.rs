//! The launcher's configuration, and the resolution of the paths it names.
use vstd::prelude::*;
use vstd::string::*;

use std::collections::HashMap;

verus! {

/// The program to launch and the rules by which days are decided.
#[derive(Debug, Clone)]
pub struct AppConfig {
    /// The program: an absolute path, a path relative to the configuration's directory,
    /// or a command found through `PATH`.
    pub command: String,
    pub args: Vec<String>,
    pub workdir: Option<String>,
    pub env: HashMap<String, String>,
    pub holiday_json_files: Vec<String>,
    /// What to do on a day that no holiday file lists: `"allow"` or `"deny"`.
    pub missing_policy: String,
    /// Run only on holidays and weekends instead of on working days.
    pub invert: bool,
}

/// The policy for unlisted days when the configuration names none.
pub fn default_missing_policy() -> (r: String)
    ensures
        r@ == "allow"@,
{
    String::from_str("allow")
}

/// Whether a text contains a character.
pub open spec fn has_char(s: Seq<char>, c: char) -> bool {
    exists|i: int| 0 <= i < s.len() && s[i] == c
}

/// A command that starts with `.` or contains a `/` or `\` is a path, not a name looked
/// up through `PATH`.
pub open spec fn is_path_like(s: Seq<char>) -> bool {
    (s.len() > 0 && s[0] == '.') || has_char(s, '\\') || has_char(s, '/')
}

/// Whether `s` looks like a path rather than a bare command name.
pub fn looks_like_path(s: &str) -> (r: bool)
    ensures
        r == is_path_like(s@),
        r <==> (s@.len() > 0 && s@[0] == '.') || (exists|i: int|
            0 <= i < s@.len() && (s@[i] == '/' || s@[i] == '\\')),
{
    let n = s.unicode_len();
    if n > 0 && s.get_char(0) == '.' {
        return true;
    }
    let mut i: usize = 0;
    while i < n
        invariant
            n == s@.len(),
            0 <= i <= n,
            !(s@.len() > 0 && s@[0] == '.'),
            forall|j: int| 0 <= j < i ==> s@[j] != '\\' && s@[j] != '/',
        decreases n - i,
    {
        let c = s.get_char(i);
        if c == '\\' || c == '/' {
            return true;
        }
        i = i + 1;
    }
    false
}

/// A path text that some platform could take for an absolute path: it starts with a
/// separator, or names a drive (`X:`). Texts of no other form are relative everywhere.
pub open spec fn may_be_absolute(p: Seq<char>) -> bool {
    (p.len() > 0 && (p[0] == '/' || p[0] == '\\')) || (p.len() >= 2 && p[1] == ':')
}

/// A separator that a platform puts between two path parts, or none.
pub open spec fn is_joint(sep: Seq<char>) -> bool {
    sep.len() == 0 || sep == seq!['/'] || sep == seq!['\\']
}

/// `r` is `base` extended by `p`, with at most a separator between them.
pub open spec fn extends_path(base: Seq<char>, p: Seq<char>, r: Seq<char>) -> bool {
    exists|sep: Seq<char>| is_joint(sep) && r == base + sep + p
}

/// A base that starts with `\`: on Windows a UNC or verbatim (`\\?\`) prefix, under
/// which joining may normalize the path.
pub open spec fn starts_with_backslash(base: Seq<char>) -> bool {
    base.len() > 0 && base[0] == '\\'
}

pub open spec fn is_separator(c: char) -> bool {
    c == '/' || c == '\\'
}

/// A base to which a relative path is joined with a separator in between: it is not empty,
/// does not end with a separator, is not a bare drive (`X:`), and has no `\`-prefix.
pub open spec fn needs_separator(base: Seq<char>) -> bool {
    &&& base.len() > 0
    &&& !starts_with_backslash(base)
    &&& !is_separator(base.last())
    &&& !(base.len() == 2 && base[1] == ':')
}

/// A path that starts with `/`: absolute on Unix, rooted without a prefix on Windows.
pub open spec fn starts_with_slash(p: Seq<char>) -> bool {
    p.len() > 0 && p[0] == '/'
}

/// A base that may carry a Windows prefix: `\\...` (UNC, verbatim, device), `//...`, or a
/// drive `X:`.
pub open spec fn may_have_prefix(base: Seq<char>) -> bool {
    starts_with_backslash(base) || (base.len() >= 2 && base[1] == ':') || (base.len() >= 2
        && base[0] == '/' && base[1] == '/')
}

/// What is known of joining `p` onto `base` into `r`, on every platform:
/// - a path starting with `/` replaces a base without a prefix (on Unix it is absolute, on
///   Windows it replaces all of the base but its prefix);
/// - unless `base` has a `\`-prefix, the result ends with `p` (an absolute `p` replaces
///   `base`, or the part of it after a drive; a relative one extends it);
/// - a path that is relative everywhere is appended to `base` with at most a separator
///   between them, and with exactly one separator when `base` needs one.
pub open spec fn joined_to(base: Seq<char>, p: Seq<char>, r: Seq<char>) -> bool {
    &&& starts_with_slash(p) && !may_have_prefix(base) ==> r == p
    &&& !starts_with_backslash(base) ==> p.is_suffix_of(r)
    &&& !may_be_absolute(p) && !starts_with_backslash(base) ==> extends_path(base, p, r)
    &&& !may_be_absolute(p) && needs_separator(base) ==> exists|c: char|
        #![trigger is_separator(c)]
        is_separator(c) && r == base.push(c) + p
}

/// `std::path::Path::is_absolute` of the text `p`.
///
/// Its documentation: on Unix a path is absolute when it starts with the root `/`; on
/// Windows when it has a prefix (`C:`, `\\server\share`, `\\?\`...) and a root. So an
/// absolute path starts with a separator or has `:` as its second character. Which of
/// these texts are absolute depends on the platform, and is not stated.
#[verifier::external_body]
fn text_is_absolute_path(p: &str) -> (r: bool)
    ensures
        r ==> may_be_absolute(p@),
{
    std::path::Path::new(p).is_absolute()
}

/// `std::path::Path::join` of two path texts, as text.
///
/// Its documentation (`PathBuf::push`): an absolute path replaces the current one; on
/// Windows a path with a root but no prefix replaces all but the prefix, and a path with
/// a prefix but no root replaces it (so a path starting with `/` replaces a base without
/// a prefix on both); a relative path extends the current one, with a
/// separator added where the current one does not end with one (except after a bare
/// drive `C:`); a verbatim (`\\?\`) current path is normalized. So, outside a
/// `\`-prefix, the result ends with `p`. Which separator (`/` on Unix, `\` on Windows)
/// is not stated, nor anything under a `\`-prefix.
#[verifier::external_body]
fn join_path_text(base: &str, p: &str) -> (r: String)
    ensures
        joined_to(base@, p@, r@),
{
    std::path::Path::new(base).join(p).to_string_lossy().into_owned()
}

/// Resolving `p` against `base` gives `r`, once the platform has said whether `p` is
/// absolute: an absolute path is kept as it is, a relative one is joined to `base`.
pub open spec fn resolved_as(base: Seq<char>, p: Seq<char>, absolute: bool, r: Seq<char>) -> bool {
    if absolute {
        r == p
    } else {
        joined_to(base, p, r)
    }
}

/// Resolving `p` against `base` gives `r` for some answer of the platform to whether `p`
/// is absolute, where only a text that may be absolute can be answered "absolute".
pub open spec fn resolution_of(base: Seq<char>, p: Seq<char>, r: Seq<char>) -> bool {
    exists|absolute: bool|
        #![trigger resolved_as(base, p, absolute, r)]
        resolved_as(base, p, absolute, r) && (absolute ==> may_be_absolute(p))
}

/// Resolves `p` against `base_dir`, given whether the platform takes `p` as absolute:
/// an absolute path is kept as it is, a relative one is joined to `base_dir`.
pub fn resolve_given(base_dir: &str, p: &str, absolute: bool) -> (r: String)
    ensures
        resolved_as(base_dir@, p@, absolute, r@),
{
    if absolute {
        String::from_str(p)
    } else {
        join_path_text(base_dir, p)
    }
}

/// A relative path is taken relative to `base_dir`; an absolute one is kept as it is.
pub fn resolve_against(base_dir: &str, p: &str) -> (r: String)
    ensures
        resolution_of(base_dir@, p@, r@),
        joined_to(base_dir@, p@, r@),
        p@.len() > 0 && p@[0] == '/' && !may_have_prefix(base_dir@) ==> r@ == p@,
{
    let absolute = text_is_absolute_path(p);
    let r = resolve_given(base_dir, p, absolute);
    assert(resolved_as(base_dir@, p@, absolute, r@));
    if absolute {
        assert(p@.is_suffix_of(r@)) by {
            assert(r@.subrange(0, r@.len() as int) =~= r@);
        }
    }
    r
}

/// Where the search for the configuration file stands. It looks, in order, at the path
/// given on the command line, at `config.toml` in the working directory, and at
/// `config.toml` next to the executable.
#[derive(Debug, Clone, Copy, PartialEq, Eq)]
pub enum ConfigSearch {
    /// Nothing looked at yet; the next answer says whether a path was given.
    Start,
    /// The next answer says whether `config.toml` exists in the working directory.
    ProbeWorkingDir,
    /// The next answer says whether `config.toml` exists next to the executable.
    ProbeExeDir,
    /// Use the path given on the command line.
    UseGiven,
    /// Use the candidate that was just found to exist.
    UseCandidate,
    /// No configuration file was given or found.
    NotFound,
}

impl ConfigSearch {
    pub open spec fn is_done(self) -> bool {
        self is UseGiven || self is UseCandidate || self is NotFound
    }
}

/// The next step of the search, given the answer to the current one: whether a path was
/// given (at `Start`) or whether the probed candidate exists.
pub open spec fn config_search_after(state: ConfigSearch, found: bool) -> ConfigSearch {
    match state {
        ConfigSearch::Start => if found {
            ConfigSearch::UseGiven
        } else {
            ConfigSearch::ProbeWorkingDir
        },
        ConfigSearch::ProbeWorkingDir => if found {
            ConfigSearch::UseCandidate
        } else {
            ConfigSearch::ProbeExeDir
        },
        ConfigSearch::ProbeExeDir => if found {
            ConfigSearch::UseCandidate
        } else {
            ConfigSearch::NotFound
        },
        other => other,
    }
}

/// Advances the search for the configuration file by one answer.
pub fn next_config_search(state: ConfigSearch, found: bool) -> (r: ConfigSearch)
    ensures
        r == config_search_after(state, found),
{
    match state {
        ConfigSearch::Start => if found {
            ConfigSearch::UseGiven
        } else {
            ConfigSearch::ProbeWorkingDir
        },
        ConfigSearch::ProbeWorkingDir => if found {
            ConfigSearch::UseCandidate
        } else {
            ConfigSearch::ProbeExeDir
        },
        ConfigSearch::ProbeExeDir => if found {
            ConfigSearch::UseCandidate
        } else {
            ConfigSearch::NotFound
        },
        other => other,
    }
}

impl AppConfig {
    /// Resolves the working directory, and the command where it looks like a path,
    /// against the directory of the configuration file.
    pub fn resolve_relative_paths(&mut self, base_dir: &str)
        ensures
            final(self).workdir is Some <==> old(self).workdir is Some,
            old(self).workdir matches Some(w) ==> resolution_of(
                base_dir@,
                w@,
                final(self).workdir->Some_0@,
            ) && joined_to(base_dir@, w@, final(self).workdir->Some_0@),
            is_path_like(old(self).command@) ==> resolution_of(
                base_dir@,
                old(self).command@,
                final(self).command@,
            ) && joined_to(base_dir@, old(self).command@, final(self).command@),
            !is_path_like(old(self).command@) ==> final(self).command == old(self).command,
            old(self).workdir matches Some(w) ==> (w@.len() > 0 && w@[0] == '/' && !may_have_prefix(
                base_dir@,
            ) ==> final(self).workdir->Some_0@ == w@),
            old(self).command@.len() > 0 && old(self).command@[0] == '/' && !may_have_prefix(
                base_dir@,
            ) ==> final(self).command@ == old(self).command@,
            final(self).args == old(self).args,
            final(self).env == old(self).env,
            final(self).holiday_json_files == old(self).holiday_json_files,
            final(self).missing_policy == old(self).missing_policy,
            final(self).invert == old(self).invert,
    {
        let resolved_workdir = match &self.workdir {
            Some(w) => Some(resolve_against(base_dir, w.as_str())),
            None => None,
        };
        self.workdir = resolved_workdir;
        if looks_like_path(self.command.as_str()) {
            let resolved = resolve_against(base_dir, self.command.as_str());
            self.command = resolved;
        }
    }
}

} // verus!
