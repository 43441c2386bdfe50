//! Construction of trace file names and paths from run metadata.
use std::fmt::Write;

use vstd::prelude::*;
use vstd::string::*;

use crate::text::{copy_str, decimal, join_strings, joined, push_char, usize_text, views};

verus! {

/// Errors of trace path construction.
#[derive(Debug, Clone)]
pub enum FilenameBuilderError {
    /// The directory of the trace could not be prepared.
    IoError(String),
    /// The settings do not describe a usable path.
    InvalidConfig(String),
}

/// Git information about the sources the program was built from.
#[derive(Debug, Clone)]
pub struct GitInfo {
    /// Branch name.
    pub branch: String,
    /// Short commit hash.
    pub commit_short: String,
    /// First line of the commit message, if known.
    pub commit_message: Option<String>,
    /// Commit author, if known.
    pub commit_author: Option<String>,
    /// Commit time (ISO-8601), if known.
    pub commit_time: Option<String>,
    /// Whether the working tree had no uncommitted changes.
    pub is_clean: bool,
}

/// Characters that cannot stand in a file name component.
pub open spec fn is_unsafe_filename_char(c: char) -> bool {
    c == '/' || c == '\\' || c == ':' || c == '*' || c == '?' || c == '"' || c == '<' || c == '>'
        || c == '|' || c == '#' || c == ' ' || c == '.'
}

/// `s` with every unsafe character replaced by `-`.
pub open spec fn sanitized(s: Seq<char>) -> Seq<char> {
    s.map_values(|c: char| if is_unsafe_filename_char(c) { '-' } else { c })
}

/// Replaces each character of `branch` that cannot stand in a file name by `-`.
pub fn sanitize_filename(branch: &str) -> (r: String)
    ensures
        r@ == sanitized(branch@),
{
    let n = branch.unicode_len();
    let mut r = String::new();
    let mut i: usize = 0;
    while i < n
        invariant
            n == branch@.len(),
            i <= n,
            r@ == sanitized(branch@.take(i as int)),
        decreases n - i,
    {
        let c = branch.get_char(i);
        let out = if c == '/' || c == '\\' || c == ':' || c == '*' || c == '?' || c == '"' || c
            == '<' || c == '>' || c == '|' || c == '#' || c == ' ' || c == '.' {
            '-'
        } else {
            c
        };
        push_char(&mut r, out);
        proof {
            assert(sanitized(branch@.take(i + 1)) =~= sanitized(branch@.take(i as int)).push(out));
        }
        i = i + 1;
    }
    proof {
        assert(branch@.take(n as int) =~= branch@);
    }
    r
}

/// The view of an optional string.
pub open spec fn opt_view(o: Option<String>) -> Option<Seq<char>> {
    match o {
        Some(s) => Some(s@),
        None => None,
    }
}

/// `None` for empty text, the text otherwise.
pub open spec fn nonempty_text(s: Seq<char>) -> Option<Seq<char>> {
    if s.len() == 0 {
        None
    } else {
        Some(s)
    }
}

fn text_eq(a: &str, b: &str) -> (r: bool)
    ensures
        r == (a@ == b@),
{
    copy_str(a) == copy_str(b)
}

fn nonempty_copy(s: &str) -> (r: Option<String>)
    ensures
        opt_view(r) == nonempty_text(s@),
{
    if s.unicode_len() == 0 {
        None
    } else {
        Some(copy_str(s))
    }
}

/// Git information from the values captured when the program was built;
/// `None` where the branch or the commit is `unknown`.
pub fn get_git_info(
    branch: &str,
    commit_short: &str,
    is_dirty: &str,
    commit_message: &str,
    commit_author: &str,
    commit_time: &str,
) -> (r: Option<GitInfo>)
    ensures
        r is None <==> (branch@ == "unknown"@ || commit_short@ == "unknown"@),
        r matches Some(g) ==> {
            &&& g.branch@ == branch@
            &&& g.commit_short@ == commit_short@
            &&& opt_view(g.commit_message) == nonempty_text(commit_message@)
            &&& opt_view(g.commit_author) == nonempty_text(commit_author@)
            &&& opt_view(g.commit_time) == nonempty_text(commit_time@)
            &&& g.is_clean == (is_dirty@ != "true"@)
        },
{
    if text_eq(branch, "unknown") || text_eq(commit_short, "unknown") {
        return None;
    }
    Some(
        GitInfo {
            branch: copy_str(branch),
            commit_short: copy_str(commit_short),
            commit_message: nonempty_copy(commit_message),
            commit_author: nonempty_copy(commit_author),
            commit_time: nonempty_copy(commit_time),
            is_clean: !text_eq(is_dirty, "true"),
        },
    )
}

/// Value of a run of decimal digits.
pub open spec fn digits_value(s: Seq<char>) -> nat
    decreases s.len(),
{
    if s.len() == 0 {
        0
    } else {
        digits_value(s.drop_last()) * 10 + (s.last() as nat - '0' as nat) as nat
    }
}

/// Whether `s` is a non-empty run of decimal digits.
pub open spec fn all_digits(s: Seq<char>) -> bool {
    s.len() > 0 && forall|i: int| 0 <= i < s.len() ==> '0' <= #[trigger] s[i] <= '9'
}

/// An unsigned number as `str::parse` reads it: an optional `+`, then digits,
/// of a value that fits.
pub open spec fn parsed_usize(s: Seq<char>) -> Option<usize> {
    let body = if s.len() > 0 && s[0] == '+' {
        s.drop_first()
    } else {
        s
    };
    if all_digits(body) && digits_value(body) <= usize::MAX {
        Some(digits_value(body) as usize)
    } else {
        None
    }
}

/// Relies on `str::parse::<usize>`: an optional `+` followed by decimal digits
/// whose value fits, and nothing else, is read; anything else is an error.
#[verifier::external_body]
fn parse_usize(s: &str) -> (r: Option<usize>)
    ensures
        r == parsed_usize(s@),
{
    s.parse::<usize>().ok()
}

/// Values from the process environment that take precedence over the builder's
/// own settings.
#[derive(Debug)]
pub struct TraceOverrides {
    /// Complete path of the trace; everything else is then ignored.
    pub file_path: Option<String>,
    /// Directory of the trace, in place of the output directory and subdirectories.
    pub trace_dir: Option<String>,
    /// Trace name.
    pub name: Option<String>,
    /// Iteration number, as text.
    pub iteration: Option<String>,
    /// Machine name.
    pub machine_name: Option<String>,
}

/// No overrides.
pub open spec fn no_overrides() -> TraceOverrides {
    TraceOverrides { file_path: None, trace_dir: None, name: None, iteration: None, machine_name: None }
}

impl TraceOverrides {
    /// No overrides.
    pub fn none() -> (r: Self)
        ensures
            r == no_overrides(),
    {
        TraceOverrides { file_path: None, trace_dir: None, name: None, iteration: None, machine_name: None }
    }
}

/// Where a trace goes.
#[derive(Debug)]
pub struct TraceLocation {
    /// The directory that must exist before the trace is written; `None` where
    /// the complete path was given.
    pub directory: Option<String>,
    /// The full path of the trace file.
    pub path: String,
}

/// The end of a run's subdirectory name: the short commit hash, or `nogit`.
pub open spec fn run_suffix(git: Option<GitInfo>) -> Seq<char> {
    match git {
        Some(g) => g.commit_short@,
        None => "nogit"@,
    }
}

/// Builder of trace file paths: `[prefix].[name].[custom values].[iterN].[timestamp].
/// [commit].[branch].[dirty].[platform].[machine].[hostname].perfetto-trace`.
#[derive(Debug, Clone)]
pub struct TraceFilenameBuilder {
    /// Time of the run.
    pub timestamp: Option<String>,
    /// Benchmark or test name.
    pub name: Option<String>,
    /// Iteration or sample number.
    pub iteration: Option<usize>,
    /// Git branch, sanitized.
    pub git_branch: Option<String>,
    /// Short git commit hash.
    pub git_commit: Option<String>,
    /// Whether the working tree had uncommitted changes.
    pub git_dirty: bool,
    /// Host name.
    pub hostname: Option<String>,
    /// Platform (CPU architecture) name.
    pub platform: Option<String>,
    /// Machine name.
    pub machine_name: Option<String>,
    /// Thread mode; kept with the settings, not part of the name.
    pub thread_mode: Option<String>,
    /// Thread count; kept with the settings, not part of the name.
    pub thread_count: Option<usize>,
    /// Configuration identifier; kept with the settings, not part of the name.
    pub config: Option<String>,
    /// Run identifier; kept with the settings, not part of the name.
    pub run_id: Option<String>,
    /// Custom keys and values, in the order added.
    pub custom_fields: Vec<(String, String)>,
    /// Base directory (`.` by default).
    pub output_dir: Option<String>,
    /// Subdirectories under the base directory, outermost first.
    pub subdirs: Vec<String>,
    /// What goes between components.
    pub separator: String,
    /// A component put before all others.
    pub prefix: Option<String>,
}

/// One component when present, none otherwise.
pub open spec fn opt_part(o: Option<Seq<char>>) -> Seq<Seq<char>> {
    match o {
        Some(s) => seq![s],
        None => Seq::empty(),
    }
}

/// The first of two options that is present.
pub open spec fn first_present(a: Option<Seq<char>>, b: Option<Seq<char>>) -> Option<Seq<char>> {
    if a is Some {
        a
    } else {
        b
    }
}

/// The non-empty values of the custom fields, in order.
pub open spec fn custom_values(fields: Seq<(String, String)>) -> Seq<Seq<char>>
    decreases fields.len(),
{
    if fields.len() == 0 {
        Seq::empty()
    } else {
        let rest = custom_values(fields.drop_last());
        if fields.last().1@.len() == 0 {
            rest
        } else {
            rest.push(fields.last().1@)
        }
    }
}

/// The iteration in effect: an override that parses, else the builder's own.
pub open spec fn final_iteration(b: TraceFilenameBuilder, o: TraceOverrides) -> Option<usize> {
    match o.iteration {
        Some(t) => match parsed_usize(t@) {
            Some(n) => Some(n),
            None => b.iteration,
        },
        None => b.iteration,
    }
}

/// The iteration component.
pub open spec fn iteration_part(i: Option<usize>) -> Seq<Seq<char>> {
    match i {
        Some(n) => seq!["iter"@ + decimal(n as nat)],
        None => Seq::empty(),
    }
}

/// The components of the file name, in order.
pub open spec fn filename_parts(b: TraceFilenameBuilder, o: TraceOverrides) -> Seq<Seq<char>> {
    opt_part(opt_view(b.prefix)) + opt_part(first_present(opt_view(o.name), opt_view(b.name)))
        + custom_values(b.custom_fields@) + iteration_part(final_iteration(b, o)) + opt_part(
        opt_view(b.timestamp),
    ) + opt_part(opt_view(b.git_commit)) + opt_part(opt_view(b.git_branch)) + (if b.git_dirty {
        seq!["dirty"@]
    } else {
        Seq::empty()
    }) + opt_part(opt_view(b.platform)) + opt_part(
        first_present(opt_view(o.machine_name), opt_view(b.machine_name)),
    ) + opt_part(opt_view(b.hostname))
}

/// The file name: the components joined by the separator, with the trace extension.
pub open spec fn file_name(b: TraceFilenameBuilder, o: TraceOverrides) -> Seq<char> {
    let parts = filename_parts(b, o);
    if parts.len() == 0 {
        "trace.perfetto-trace"@
    } else {
        joined(parts, b.separator@) + ".perfetto-trace"@
    }
}

/// `part` appended to the path `base` as a further component; an absolute
/// `part` replaces `base`.
pub open spec fn path_join(base: Seq<char>, part: Seq<char>) -> Seq<char> {
    if part.len() > 0 && part[0] == '/' {
        part
    } else if base.len() == 0 {
        part
    } else if base.last() == '/' {
        base + part
    } else {
        base + seq!['/'] + part
    }
}

/// `base` followed by each of `parts`.
pub open spec fn path_join_all(base: Seq<char>, parts: Seq<Seq<char>>) -> Seq<char>
    decreases parts.len(),
{
    if parts.len() == 0 {
        base
    } else {
        path_join(path_join_all(base, parts.drop_last()), parts.last())
    }
}

/// The directory of the trace.
pub open spec fn trace_dir(b: TraceFilenameBuilder, o: TraceOverrides) -> Seq<char> {
    match o.trace_dir {
        Some(d) => d@,
        None => path_join_all(
            match b.output_dir {
                Some(d) => d@,
                None => "."@,
            },
            views(b.subdirs@),
        ),
    }
}

/// The full path of the trace.
pub open spec fn trace_path(b: TraceFilenameBuilder, o: TraceOverrides) -> Seq<char> {
    match o.file_path {
        Some(p) => p@,
        None => path_join(trace_dir(b, o), file_name(b, o)),
    }
}

fn join_path(base: &str, part: &str) -> (r: String)
    ensures
        r@ == path_join(base@, part@),
{
    let pl = part.unicode_len();
    let bl = base.unicode_len();
    if pl > 0 && part.get_char(0) == '/' {
        copy_str(part)
    } else if bl == 0 {
        copy_str(part)
    } else if base.get_char(bl - 1) == '/' {
        let mut r = copy_str(base);
        r.append(part);
        r
    } else {
        let mut r = copy_str(base);
        push_char(&mut r, '/');
        r.append(part);
        proof {
            assert(base@.push('/') =~= base@ + seq!['/']);
        }
        r
    }
}

fn copy_opt(o: &Option<String>) -> (r: Option<String>)
    ensures
        opt_view(r) == opt_view(*o),
{
    match o {
        Some(s) => Some(s.clone()),
        None => None,
    }
}

fn push_opt(parts: &mut Vec<String>, o: &Option<String>)
    ensures
        views(final(parts)@) == views(old(parts)@) + opt_part(opt_view(*o)),
{
    match o {
        Some(s) => {
            parts.push(s.clone());
            proof {
                assert(views(final(parts)@) =~= views(old(parts)@) + opt_part(opt_view(*o)));
            }
        },
        None => {
            proof {
                assert(views(final(parts)@) =~= views(old(parts)@) + opt_part(opt_view(*o)));
            }
        },
    }
}

/// Relies on chrono's `Local::now` and `DateTime::format`: the local time now as
/// `YYYYMMDDTHHMMSS`. It depends on the clock, so nothing is stated of it.
#[verifier::external_body]
fn local_timestamp() -> (r: String) {
    chrono::Local::now().format("%Y%m%dT%H%M%S").to_string()
}

/// Relies on chrono's `Local::now` and `DateTime::format`, written through
/// `fmt::Write`: the local time now in `format`, `None` where `format` holds an
/// item chrono cannot render. It depends on the clock, so nothing more is
/// stated of it.
#[verifier::external_body]
fn local_timestamp_as(format: &str) -> (r: Option<String>) {
    let mut out = String::new();
    match write!(out, "{}", chrono::Local::now().format(format)) {
        Ok(()) => Some(out),
        Err(_) => None,
    }
}

/// Relies on `gethostname::gethostname`: the host name, `None` where it is not
/// valid Unicode. It depends on the machine, so nothing is stated of it.
#[verifier::external_body]
fn host_name() -> (r: Option<String>) {
    gethostname::gethostname().into_string().ok()
}

impl TraceFilenameBuilder {
    /// A builder with no components and `.` as separator.
    pub fn new() -> (r: Self)
        ensures
            r.timestamp is None && r.name is None && r.iteration is None,
            r.git_branch is None && r.git_commit is None && !r.git_dirty,
            r.hostname is None && r.platform is None && r.machine_name is None,
            r.thread_mode is None && r.thread_count is None && r.config is None,
            r.run_id is None && r.prefix is None && r.output_dir is None,
            r.custom_fields@.len() == 0 && r.subdirs@.len() == 0,
            r.separator@ == "."@,
    {
        TraceFilenameBuilder {
            timestamp: None,
            name: None,
            iteration: None,
            git_branch: None,
            git_commit: None,
            git_dirty: false,
            hostname: None,
            platform: None,
            machine_name: None,
            thread_mode: None,
            thread_count: None,
            config: None,
            run_id: None,
            custom_fields: Vec::new(),
            output_dir: None,
            subdirs: Vec::new(),
            separator: copy_str("."),
            prefix: None,
        }
    }

    /// Sets the benchmark or test name.
    pub fn name(self, name: &str) -> (r: Self)
        ensures
            opt_view(r.name) == Some(name@),
            r == (TraceFilenameBuilder { name: r.name, ..self }),
    {
        TraceFilenameBuilder { name: Some(copy_str(name)), ..self }
    }

    /// Sets the iteration number.
    pub fn iteration(self, iteration: usize) -> (r: Self)
        ensures
            r == (TraceFilenameBuilder { iteration: Some(iteration), ..self }),
    {
        TraceFilenameBuilder { iteration: Some(iteration), ..self }
    }

    /// Sets the git commit hash.
    pub fn git_commit(self, commit: &str) -> (r: Self)
        ensures
            opt_view(r.git_commit) == Some(commit@),
            r == (TraceFilenameBuilder { git_commit: r.git_commit, ..self }),
    {
        TraceFilenameBuilder { git_commit: Some(copy_str(commit)), ..self }
    }

    /// Sets the machine name.
    pub fn machine_name(self, name: &str) -> (r: Self)
        ensures
            opt_view(r.machine_name) == Some(name@),
            r == (TraceFilenameBuilder { machine_name: r.machine_name, ..self }),
    {
        TraceFilenameBuilder { machine_name: Some(copy_str(name)), ..self }
    }

    /// Sets the thread mode (e.g. `single`, `multi`, `async`).
    pub fn thread_mode(self, mode: &str) -> (r: Self)
        ensures
            opt_view(r.thread_mode) == Some(mode@),
            r == (TraceFilenameBuilder { thread_mode: r.thread_mode, ..self }),
    {
        TraceFilenameBuilder { thread_mode: Some(copy_str(mode)), ..self }
    }

    /// Sets the configuration identifier.
    pub fn config(self, config: &str) -> (r: Self)
        ensures
            opt_view(r.config) == Some(config@),
            r == (TraceFilenameBuilder { config: r.config, ..self }),
    {
        TraceFilenameBuilder { config: Some(copy_str(config)), ..self }
    }

    /// Sets the run identifier.
    pub fn run_id(self, id: &str) -> (r: Self)
        ensures
            opt_view(r.run_id) == Some(id@),
            r == (TraceFilenameBuilder { run_id: r.run_id, ..self }),
    {
        TraceFilenameBuilder { run_id: Some(copy_str(id)), ..self }
    }

    /// Sets a prefix put before every other component.
    pub fn prepend(self, prefix: &str) -> (r: Self)
        ensures
            opt_view(r.prefix) == Some(prefix@),
            r == (TraceFilenameBuilder { prefix: r.prefix, ..self }),
    {
        TraceFilenameBuilder { prefix: Some(copy_str(prefix)), ..self }
    }

    /// Adds the current local time as `YYYYMMDDTHHMMSS`.
    pub fn timestamp(self) -> (r: Self)
        ensures
            r.timestamp is Some,
            r == (TraceFilenameBuilder { timestamp: r.timestamp, ..self }),
    {
        TraceFilenameBuilder { timestamp: Some(local_timestamp()), ..self }
    }

    /// Adds the current local time in a chrono `format`; no change where the
    /// format cannot be rendered.
    pub fn timestamp_custom(self, format: &str) -> (r: Self)
        ensures
            r == (TraceFilenameBuilder { timestamp: r.timestamp, ..self }),
            self.timestamp is Some ==> r.timestamp is Some,
    {
        match local_timestamp_as(format) {
            Some(t) => TraceFilenameBuilder { timestamp: Some(t), ..self },
            None => self,
        }
    }

    /// Takes the branch (sanitized), the commit and the dirty flag from `info`;
    /// no change where there is none.
    pub fn git_info(self, info: &Option<GitInfo>) -> (r: Self)
        ensures
            match *info {
                Some(g) => {
                    &&& opt_view(r.git_branch) == Some(sanitized(g.branch@))
                    &&& opt_view(r.git_commit) == Some(g.commit_short@)
                    &&& r.git_dirty == !g.is_clean
                    &&& r == (TraceFilenameBuilder {
                        git_branch: r.git_branch,
                        git_commit: r.git_commit,
                        git_dirty: r.git_dirty,
                        ..self
                    })
                },
                None => r == self,
            },
    {
        match info {
            Some(g) => TraceFilenameBuilder {
                git_branch: Some(sanitize_filename(g.branch.as_str())),
                git_commit: Some(g.commit_short.clone()),
                git_dirty: !g.is_clean,
                ..self
            },
            None => self,
        }
    }

    /// Adds a subdirectory named after this run: the local time as
    /// `YYYYMMDDTHHMMSS`, a dash, and the short commit hash (`nogit` without
    /// git information).
    pub fn subdir_run_id(self, git: &Option<GitInfo>) -> (r: Self)
        ensures
            exists|stamp: Seq<char>|
                views(r.subdirs@) == views(self.subdirs@).push(stamp + "-"@ + run_suffix(*git)),
            r == (TraceFilenameBuilder { subdirs: r.subdirs, ..self }),
    {
        let mut run_id = local_timestamp();
        let ghost stamp = run_id@;
        run_id.append("-");
        match git {
            Some(g) => run_id.append(g.commit_short.as_str()),
            None => run_id.append("nogit"),
        }
        proof {
            assert(run_id@ == stamp + "-"@ + run_suffix(*git));
        }
        self.subdir(run_id.as_str())
    }

    /// Sets the git branch, sanitized for a file name.
    pub fn git_branch(self, branch: &str) -> (r: Self)
        ensures
            opt_view(r.git_branch) == Some(sanitized(branch@)),
            r == (TraceFilenameBuilder { git_branch: r.git_branch, ..self }),
    {
        TraceFilenameBuilder { git_branch: Some(sanitize_filename(branch)), ..self }
    }

    /// Marks the working tree as dirty.
    pub fn git_dirty(self) -> (r: Self)
        ensures
            r == (TraceFilenameBuilder { git_dirty: true, ..self }),
    {
        TraceFilenameBuilder { git_dirty: true, ..self }
    }

    /// Adds the host name, where it is valid Unicode.
    pub fn hostname(self) -> (r: Self)
        ensures
            r == (TraceFilenameBuilder { hostname: r.hostname, ..self }),
            self.hostname is Some ==> r.hostname is Some,
    {
        match host_name() {
            Some(h) => TraceFilenameBuilder { hostname: Some(h), ..self },
            None => self,
        }
    }

    /// Sets the platform name (the CPU architecture, unless configured otherwise).
    pub fn platform(self, platform: &str) -> (r: Self)
        ensures
            opt_view(r.platform) == Some(platform@),
            r == (TraceFilenameBuilder { platform: r.platform, ..self }),
    {
        TraceFilenameBuilder { platform: Some(copy_str(platform)), ..self }
    }

    /// Sets the thread count.
    pub fn thread_count(self, count: usize) -> (r: Self)
        ensures
            r == (TraceFilenameBuilder { thread_count: Some(count), ..self }),
    {
        TraceFilenameBuilder { thread_count: Some(count), ..self }
    }

    /// Adds a variant description as a custom field named `variant`.
    pub fn variant(self, variant: &str) -> (r: Self)
        ensures
            r.custom_fields@.len() == self.custom_fields@.len() + 1,
            r.custom_fields@.drop_last() == self.custom_fields@,
            r.custom_fields@.last().0@ == "variant"@,
            r.custom_fields@.last().1@ == variant@,
            r == (TraceFilenameBuilder { custom_fields: r.custom_fields, ..self }),
    {
        self.add("variant", variant)
    }

    /// Adds a custom key and value; the value becomes a component where it is
    /// not empty.
    pub fn add(self, key: &str, value: &str) -> (r: Self)
        ensures
            r.custom_fields@.len() == self.custom_fields@.len() + 1,
            r.custom_fields@.drop_last() == self.custom_fields@,
            r.custom_fields@.last().0@ == key@,
            r.custom_fields@.last().1@ == value@,
            r == (TraceFilenameBuilder { custom_fields: r.custom_fields, ..self }),
    {
        let mut fields = self.custom_fields;
        fields.push((copy_str(key), copy_str(value)));
        proof {
            assert(fields@.drop_last() =~= self.custom_fields@);
        }
        TraceFilenameBuilder { custom_fields: fields, ..self }
    }

    /// Adds a custom key and value where the value is present.
    pub fn add_option(self, key: &str, value: Option<&str>) -> (r: Self)
        ensures
            match value {
                Some(v) => {
                    &&& r.custom_fields@.len() == self.custom_fields@.len() + 1
                    &&& r.custom_fields@.drop_last() == self.custom_fields@
                    &&& r.custom_fields@.last().0@ == key@
                    &&& r.custom_fields@.last().1@ == v@
                    &&& r == (TraceFilenameBuilder { custom_fields: r.custom_fields, ..self })
                },
                None => r == self,
            },
    {
        match value {
            Some(v) => self.add(key, v),
            None => self,
        }
    }

    /// Sets the separator between components (`.` by default).
    pub fn separator(self, separator: &str) -> (r: Self)
        ensures
            r.separator@ == separator@,
            r == (TraceFilenameBuilder { separator: r.separator, ..self }),
    {
        TraceFilenameBuilder { separator: copy_str(separator), ..self }
    }

    /// Sets the base directory.
    pub fn output_dir(self, dir: &str) -> (r: Self)
        ensures
            opt_view(r.output_dir) == Some(dir@),
            r == (TraceFilenameBuilder { output_dir: r.output_dir, ..self }),
    {
        TraceFilenameBuilder { output_dir: Some(copy_str(dir)), ..self }
    }

    /// Adds one subdirectory level.
    pub fn subdir(self, subdir: &str) -> (r: Self)
        ensures
            views(r.subdirs@) == views(self.subdirs@).push(subdir@),
            r == (TraceFilenameBuilder { subdirs: r.subdirs, ..self }),
    {
        let mut dirs = self.subdirs;
        let ghost prev = dirs@;
        dirs.push(copy_str(subdir));
        proof {
            assert(views(dirs@) =~= views(prev).push(subdir@));
        }
        TraceFilenameBuilder { subdirs: dirs, ..self }
    }

    /// Adds several subdirectory levels, in order.
    pub fn subdirs(self, subdirs: &[&str]) -> (r: Self)
        ensures
            views(r.subdirs@) == views(self.subdirs@) + subdirs@.map_values(|s: &str| s@),
            r == (TraceFilenameBuilder { subdirs: r.subdirs, ..self }),
    {
        let mut dirs = self.subdirs;
        let ghost start = views(dirs@);
        let mut i: usize = 0;
        while i < subdirs.len()
            invariant
                i <= subdirs@.len(),
                views(dirs@) == start + subdirs@.take(i as int).map_values(|s: &str| s@),
            decreases subdirs@.len() - i,
        {
            let ghost prev = dirs@;
            dirs.push(copy_str(subdirs[i]));
            proof {
                assert(views(dirs@) =~= views(prev).push(subdirs@[i as int]@));
                assert(subdirs@.take(i + 1).map_values(|s: &str| s@) =~= subdirs@.take(
                    i as int,
                ).map_values(|s: &str| s@).push(subdirs@[i as int]@));
            }
            i = i + 1;
        }
        proof {
            assert(subdirs@.take(subdirs@.len() as int) =~= subdirs@);
        }
        TraceFilenameBuilder { subdirs: dirs, ..self }
    }

    /// The default trace settings: timestamp, git information, platform and
    /// host name.
    pub fn from_env(platform: &str, git: &Option<GitInfo>) -> (r: Self)
        ensures
            r.timestamp is Some,
            opt_view(r.platform) == Some(platform@),
            r.name is None && r.iteration is None && r.prefix is None,
            r.custom_fields@.len() == 0 && r.subdirs@.len() == 0,
            r.separator@ == "."@,
    {
        Self::new().timestamp().git_info(git).platform(platform).hostname()
    }

    /// The default trace settings, as `from_env` gives them.
    pub fn default_perfetto(platform: &str, git: &Option<GitInfo>) -> (r: Self)
        ensures
            r.timestamp is Some,
            opt_view(r.platform) == Some(platform@),
            r.name is None && r.iteration is None && r.prefix is None,
            r.custom_fields@.len() == 0 && r.subdirs@.len() == 0,
            r.separator@ == "."@,
    {
        Self::from_env(platform, git)
    }

    /// The default trace settings with a benchmark name.
    pub fn for_benchmark(name: &str, platform: &str, git: &Option<GitInfo>) -> (r: Self)
        ensures
            opt_view(r.name) == Some(name@),
            r.timestamp is Some,
            opt_view(r.platform) == Some(platform@),
            r.iteration is None && r.prefix is None,
            r.custom_fields@.len() == 0 && r.subdirs@.len() == 0,
            r.separator@ == "."@,
    {
        Self::new().name(name).timestamp().git_info(git).platform(platform).hostname()
    }

    /// The full path of the trace under the given overrides, and the directory
    /// that must exist for it.
    pub fn build_with(self, overrides: &TraceOverrides) -> (r: TraceLocation)
        ensures
            r.path@ == trace_path(self, *overrides),
            opt_view(r.directory) == (if overrides.file_path is Some {
                None::<Seq<char>>
            } else {
                Some(trace_dir(self, *overrides))
            }),
    {
        if let Some(p) = &overrides.file_path {
            return TraceLocation { directory: None, path: p.clone() };
        }
        let ghost b = self;
        let ghost o = *overrides;
        let mut parts: Vec<String> = Vec::new();
        push_opt(&mut parts, &self.prefix);
        let final_name = if overrides.name.is_some() {
            copy_opt(&overrides.name)
        } else {
            copy_opt(&self.name)
        };
        push_opt(&mut parts, &final_name);
        let ghost before_custom = views(parts@);
        let mut i: usize = 0;
        while i < self.custom_fields.len()
            invariant
                i <= self.custom_fields@.len(),
                views(parts@) == before_custom + custom_values(self.custom_fields@.take(i as int)),
            decreases self.custom_fields@.len() - i,
        {
            proof {
                assert(self.custom_fields@.take(i + 1).drop_last() =~= self.custom_fields@.take(
                    i as int,
                ));
                assert(self.custom_fields@.take(i + 1).last() == self.custom_fields@[i as int]);
            }
            let value = &self.custom_fields[i].1;
            if value.unicode_len() > 0 {
                let ghost prev = parts@;
                parts.push(value.clone());
                proof {
                    assert(views(parts@) =~= views(prev).push(value@));
                    assert(views(parts@) =~= before_custom + custom_values(
                        self.custom_fields@.take(i + 1),
                    ));
                }
            } else {
                proof {
                    assert(views(parts@) =~= before_custom + custom_values(
                        self.custom_fields@.take(i + 1),
                    ));
                }
            }
            i = i + 1;
        }
        proof {
            assert(self.custom_fields@.take(self.custom_fields@.len() as int)
                =~= self.custom_fields@);
        }
        let parsed = match &overrides.iteration {
            Some(t) => parse_usize(t.as_str()),
            None => None,
        };
        let final_iteration = if parsed.is_some() {
            parsed
        } else {
            self.iteration
        };
        let iteration_text = match final_iteration {
            Some(n) => {
                let mut t = copy_str("iter");
                let digits = usize_text(n);
                t.append(digits.as_str());
                Some(t)
            },
            None => None,
        };
        push_opt(&mut parts, &iteration_text);
        push_opt(&mut parts, &self.timestamp);
        push_opt(&mut parts, &self.git_commit);
        push_opt(&mut parts, &self.git_branch);
        let dirty = if self.git_dirty {
            Some(copy_str("dirty"))
        } else {
            None
        };
        push_opt(&mut parts, &dirty);
        push_opt(&mut parts, &self.platform);
        let final_machine = if overrides.machine_name.is_some() {
            copy_opt(&overrides.machine_name)
        } else {
            copy_opt(&self.machine_name)
        };
        push_opt(&mut parts, &final_machine);
        push_opt(&mut parts, &self.hostname);
        proof {
            assert(views(parts@) =~= filename_parts(b, o));
        }
        let filename = if parts.len() == 0 {
            copy_str("trace.perfetto-trace")
        } else {
            let mut f = join_strings(&parts, self.separator.as_str());
            f.append(".perfetto-trace");
            f
        };
        let directory = match &overrides.trace_dir {
            Some(d) => d.clone(),
            None => {
                let mut dir = match &self.output_dir {
                    Some(d) => d.clone(),
                    None => copy_str("."),
                };
                let ghost base = dir@;
                let mut k: usize = 0;
                while k < self.subdirs.len()
                    invariant
                        k <= self.subdirs@.len(),
                        dir@ == path_join_all(base, views(self.subdirs@).take(k as int)),
                    decreases self.subdirs@.len() - k,
                {
                    proof {
                        assert(views(self.subdirs@).take(k + 1).drop_last() =~= views(
                            self.subdirs@,
                        ).take(k as int));
                    }
                    dir = join_path(dir.as_str(), self.subdirs[k].as_str());
                    k = k + 1;
                }
                proof {
                    assert(views(self.subdirs@).take(self.subdirs@.len() as int) =~= views(
                        self.subdirs@,
                    ));
                }
                dir
            },
        };
        let path = join_path(directory.as_str(), filename.as_str());
        TraceLocation { directory: Some(directory), path }
    }

    /// The full path of the trace, without overrides.
    pub fn build(self) -> (r: Result<String, FilenameBuilderError>)
        ensures
            r matches Ok(p) && p@ == trace_path(self, no_overrides()),
    {
        let location = self.build_with(&TraceOverrides::none());
        Ok(location.path)
    }
}

} // verus!
