//! What the installer keeps of a build tool's output: for each tool, which lines are
//! logged, which mark a failure, and which are shown as progress.
use vstd::prelude::*;
use crate::text::{
    contains_spec, drop_leading, lower_spec, push_char, replace, replace_spec, split_whitespace,
    starts_with_spec, str_contains, str_starts_with, to_lowercase, trim, trim_end, trim_end_spec,
    trim_spec, trim_start, trim_start_char, trim_start_spec, words_spec, lemma_lower_keeps_occurrences,
};

verus! {

/// `s` with its ANSI escape sequences removed, as `console::strip_ansi_codes` gives it.
pub uninterp spec fn ansi_stripped(s: Seq<char>) -> Seq<char>;

/// No escape-sequence introducer (`ESC` or `CSI`) occurs in `s`.
pub open spec fn free_of_escapes(s: Seq<char>) -> bool {
    forall|i: int| 0 <= i < s.len() ==> s[i] != '\u{1b}' && s[i] != '\u{9b}'
}

/// `console::strip_ansi_codes` (through `dialoguer::console`). The contract names the
/// result; the one fact it states is the function's early exit: text without an `ESC` or
/// `CSI` character comes back unchanged.
#[verifier::external_body]
fn strip_ansi(s: &str) -> (r: String)
    ensures
        r@ == ansi_stripped(s@),
        free_of_escapes(s@) ==> r@ == s@,
{
    dialoguer::console::strip_ansi_codes(s).to_string()
}

/// A CMake build line reports a failure: its lowercase form mentions `error:`, `failed`
/// or `cmake error`.
pub open spec fn cmake_build_error(line: Seq<char>) -> bool {
    let low = lower_spec(line);
    contains_spec(low, "error:"@) || contains_spec(low, "failed"@) || contains_spec(low, "cmake error"@)
}

/// A CMake build line is progress: after leading white space it starts with `--`.
pub open spec fn cmake_build_progress(line: Seq<char>) -> bool {
    starts_with_spec(trim_start_spec(line), "--"@)
}

/// The text kept of a CMake progress line: without leading white space and dashes.
pub open spec fn cmake_progress_text(line: Seq<char>) -> Seq<char> {
    trim_start_spec(drop_leading(trim_start_spec(line), '-'))
}

/// A CMake install line reports a failure.
pub open spec fn cmake_install_error(line: Seq<char>) -> bool {
    contains_spec(line, "error:"@) || contains_spec(line, "failed"@) || contains_spec(line, "CMake Error"@)
}

/// A line of `configure` output reports a failure.
pub open spec fn configure_error(line: Seq<char>) -> bool {
    contains_spec(line, "configure: error:"@) || contains_spec(line, "error:"@) || contains_spec(line, "failed"@)
}

/// A line of `make` or `make install` output, run after `configure`, reports a failure.
pub open spec fn autotools_error(line: Seq<char>) -> bool {
    contains_spec(line, "error:"@) || contains_spec(line, "failed"@)
}

/// A line of a plain `make` build is compile progress.
pub open spec fn make_progress(line: Seq<char>) -> bool {
    ||| contains_spec(line, "CC"@)
    ||| contains_spec(line, "LD"@)
    ||| contains_spec(line, "LINK"@)
    ||| contains_spec(line, "AR"@)
    ||| contains_spec(line, "checking"@)
    ||| contains_spec(line, "CCLD"@)
    ||| contains_spec(line, "LDSHARED"@)
    ||| contains_spec(line, "RANLIB"@)
    ||| contains_spec(line, "Building"@)
    ||| contains_spec(line, "Built"@)
}

/// A line of a plain `make` build that is not progress reports a failure.
pub open spec fn make_error(line: Seq<char>) -> bool {
    !make_progress(line) && (contains_spec(line, "error:"@) || contains_spec(line, "No targets."@)
        || contains_spec(line, "make: ***"@))
}

/// A line of a plain `make install` reports a failure.
pub open spec fn make_install_error(line: Seq<char>) -> bool {
    let t = trim_spec(line);
    contains_spec(t, "error"@) || contains_spec(t, "make: ***"@) || contains_spec(t, "No targets."@)
}

/// A line of `go build` output looks like a failure.
pub open spec fn go_error(line: Seq<char>) -> bool {
    contains_spec(line, "error"@) || contains_spec(line, "failed"@)
}

/// A line of `cabal build` output is progress.
pub open spec fn cabal_progress(line: Seq<char>) -> bool {
    ||| contains_spec(line, "Starting"@)
    ||| contains_spec(line, "Building"@)
    ||| contains_spec(line, "Configuring"@)
    ||| contains_spec(line, "Downloaded"@)
    ||| contains_spec(line, "Downloading"@)
    ||| contains_spec(line, "Resolving"@)
    ||| contains_spec(line, "Completed"@)
    ||| contains_spec(line, "Installing"@)
}

/// A line of `cabal build` output that is not progress reports a failure.
pub open spec fn cabal_error(line: Seq<char>) -> bool {
    !cabal_progress(line) && (contains_spec(line, "Error:"@) || contains_spec(line, "error:"@)
        || contains_spec(line, "Failed"@))
}

/// A trimmed line of `gleam export` output is progress.
pub open spec fn gleam_progress(t: Seq<char>) -> bool {
    ||| contains_spec(t, "Downloading"@)
    ||| contains_spec(t, "Downloaded"@)
    ||| contains_spec(t, "Compiling"@)
    ||| contains_spec(t, "Compiled"@)
    ||| contains_spec(t, "Exported"@)
}

/// A trimmed line of `gleam export` output that is not progress reports a problem.
pub open spec fn gleam_problem(t: Seq<char>) -> bool {
    !gleam_progress(t) && (contains_spec(t, "Error"@) || contains_spec(t, "error"@) || contains_spec(t, "failed"@))
}

/// The kind of a line of a plain `make` build.
#[derive(Clone, Copy, Debug, PartialEq, Eq, Structural)]
pub enum MakeLine {
    Progress,
    Error,
    Other,
}

/// How a line of `gleam export` output is shown.
pub enum GleamLine {
    /// A progress line, split into words; the first names the step.
    Progress(Vec<String>),
    /// A problem, shown as the trimmed line.
    Problem(String),
    /// Not shown.
    Other,
}

/// The log of one build step: the kept lines, each ended by `\n`, and whether a kept or
/// seen line reported a failure.
pub struct BuildLog {
    pub text: String,
    pub has_error: bool,
}

impl BuildLog {
    /// An empty log without failures.
    pub fn new() -> (r: BuildLog)
        ensures
            r.text@ == Seq::<char>::empty(),
            !r.has_error,
    {
        BuildLog { text: String::new(), has_error: false }
    }

    /// Keeps `entry` as a line, and notes a failure when `failed`.
    fn keep(&mut self, entry: &str, failed: bool)
        ensures
            final(self).text@ == old(self).text@ + entry@ + seq!['\n'],
            final(self).has_error == (old(self).has_error || failed),
    {
        self.text.append(entry);
        push_char(&mut self.text, '\n');
        if failed {
            self.has_error = true;
        }
    }

    /// Takes a line of `cmake --build` output. A failure line is kept without trailing
    /// white space; a progress line (`--` after leading white space) is kept without its
    /// leading white space and dashes, and that text is returned to be shown; other lines
    /// are dropped.
    pub fn take_cmake_build_line(&mut self, line: &str) -> (shown: Option<String>)
        ensures
            cmake_build_error(line@) ==> final(self).text@ == old(self).text@ + trim_end_spec(line@) + seq!['\n']
                && final(self).has_error && shown is None,
            !cmake_build_error(line@) && cmake_build_progress(line@) ==> final(self).text@ == old(self).text@
                + cmake_progress_text(line@) + seq!['\n'] && final(self).has_error == old(self).has_error
                && (shown matches Some(s) && s@ == cmake_progress_text(line@)),
            !cmake_build_error(line@) && !cmake_build_progress(line@) ==> final(self).text@ == old(self).text@
                && final(self).has_error == old(self).has_error && shown is None,
    {
        let low = to_lowercase(line);
        let l = low.as_str();
        if str_contains(l, "error:") || str_contains(l, "failed") || str_contains(l, "cmake error") {
            let t = trim_end(line);
            self.keep(t.as_str(), true);
            return None;
        }
        let lead = trim_start(line);
        if str_starts_with(lead.as_str(), "--") {
            let d = trim_start_char(lead.as_str(), '-');
            let p = trim_start(d.as_str());
            self.keep(p.as_str(), false);
            return Some(p);
        }
        None
    }

    /// Takes a line of `cmake --install` output: it is kept without `\n` characters, and
    /// the returned flag tells whether it reports a failure.
    pub fn take_cmake_install_line(&mut self, line: &str) -> (failed: bool)
        ensures
            failed == cmake_install_error(line@),
            final(self).text@ == old(self).text@ + replace_spec(line@, seq!['\n'], Seq::empty()) + seq!['\n'],
            final(self).has_error == (old(self).has_error || failed),
    {
        let failed = str_contains(line, "error:") || str_contains(line, "failed") || str_contains(line, "CMake Error");
        proof {
            reveal_strlit("\n");
            reveal_strlit("");
            assert("\n"@ =~= seq!['\n']);
            assert(""@ =~= Seq::<char>::empty());
        }
        let kept = replace(line, "\n", "");
        self.keep(kept.as_str(), failed);
        failed
    }

    /// Takes a line of `configure` output: it is kept, and the returned flag tells whether it
    /// reports a failure (failures are not shown).
    pub fn take_configure_line(&mut self, line: &str) -> (failed: bool)
        ensures
            failed == configure_error(line@),
            final(self).text@ == old(self).text@ + line@ + seq!['\n'],
            final(self).has_error == (old(self).has_error || failed),
    {
        let failed = str_contains(line, "configure: error:") || str_contains(line, "error:") || str_contains(line, "failed");
        self.keep(line, failed);
        failed
    }

    /// Takes a line of `make` output after `configure`. A failure line is kept as it is;
    /// any other line is kept without ANSI escape sequences, and that text is returned to
    /// be shown.
    pub fn take_autotools_make_line(&mut self, line: &str) -> (shown: Option<String>)
        ensures
            contains_spec(line@, "error:"@) || contains_spec(line@, "failed"@) ==> final(self).has_error
                && shown is None && final(self).text@ == old(self).text@ + line@ + seq!['\n'],
            !contains_spec(line@, "error:"@) && !contains_spec(line@, "failed"@) ==> shown is Some
                && final(self).has_error == old(self).has_error,
            autotools_error(line@) ==> final(self).text@ == old(self).text@ + line@ + seq!['\n']
                && final(self).has_error && shown is None,
            !autotools_error(line@) ==> final(self).text@ == old(self).text@ + ansi_stripped(line@) + seq!['\n']
                && final(self).has_error == old(self).has_error
                && (shown matches Some(s) && s@ == ansi_stripped(line@)),
    {
        if str_contains(line, "error:") || str_contains(line, "failed") {
            self.keep(line, true);
            None
        } else {
            let plain = strip_ansi(line);
            self.keep(plain.as_str(), false);
            Some(plain)
        }
    }

    /// Takes a line of `make install` output after `configure`: it is kept, and the
    /// returned flag tells whether it reports a failure.
    pub fn take_autotools_install_line(&mut self, line: &str) -> (failed: bool)
        ensures
            failed == (contains_spec(line@, "error:"@) || contains_spec(line@, "failed"@)),
            failed == autotools_error(line@),
            final(self).text@ == old(self).text@ + line@ + seq!['\n'],
            final(self).has_error == (old(self).has_error || failed),
    {
        let failed = str_contains(line, "error:") || str_contains(line, "failed");
        self.keep(line, failed);
        failed
    }

    /// Takes a line of a plain `make` build: it is kept, and classified as progress, as a
    /// failure (only when it is not progress), or as neither.
    pub fn take_make_build_line(&mut self, line: &str) -> (kind: MakeLine)
        ensures
            final(self).text@ == old(self).text@ + line@ + seq!['\n'],
            kind == (if make_progress(line@) {
                MakeLine::Progress
            } else if make_error(line@) {
                MakeLine::Error
            } else {
                MakeLine::Other
            }),
            final(self).has_error == (old(self).has_error || kind == MakeLine::Error),
    {
        let progress = str_contains(line, "CC") || str_contains(line, "LD") || str_contains(line, "LINK")
            || str_contains(line, "AR") || str_contains(line, "checking") || str_contains(line, "CCLD")
            || str_contains(line, "LDSHARED") || str_contains(line, "RANLIB") || str_contains(line, "Building")
            || str_contains(line, "Built");
        let kind = if progress {
            MakeLine::Progress
        } else if str_contains(line, "error:") || str_contains(line, "No targets.") || str_contains(line, "make: ***") {
            MakeLine::Error
        } else {
            MakeLine::Other
        };
        self.keep(line, kind == MakeLine::Error);
        kind
    }

    /// Takes a line of a plain `make install`: only failure lines are kept. Returns whether
    /// the line reports a failure.
    pub fn take_make_install_line(&mut self, line: &str) -> (failed: bool)
        ensures
            failed == make_install_error(line@),
            failed ==> final(self).text@ == old(self).text@ + line@ + seq!['\n'] && final(self).has_error,
            !failed ==> final(self).text@ == old(self).text@ && final(self).has_error == old(self).has_error,
    {
        let t = trim(line);
        let tt = t.as_str();
        let failed = str_contains(tt, "error") || str_contains(tt, "make: ***") || str_contains(tt, "No targets.");
        if failed {
            self.keep(line, true);
        }
        failed
    }

    /// Takes a line of `go build` output: every line is kept, and every line marks the build
    /// as failed, whatever it says. Returns whether the line itself names an error (such
    /// lines are not shown).
    pub fn take_go_line(&mut self, line: &str) -> (looks_failed: bool)
        ensures
            looks_failed == go_error(line@),
            final(self).text@ == old(self).text@ + line@ + seq!['\n'],
            final(self).has_error,
    {
        let looks_failed = str_contains(line, "error") || str_contains(line, "failed");
        self.keep(line, true);
        looks_failed
    }

    /// Takes a line of `cabal build` output: it is kept, and classified as progress, as a
    /// failure (only when it is not progress), or as neither.
    pub fn take_cabal_line(&mut self, line: &str) -> (kind: MakeLine)
        ensures
            final(self).text@ == old(self).text@ + line@ + seq!['\n'],
            kind == (if cabal_progress(line@) {
                MakeLine::Progress
            } else if cabal_error(line@) {
                MakeLine::Error
            } else {
                MakeLine::Other
            }),
            final(self).has_error == (old(self).has_error || kind == MakeLine::Error),
    {
        let progress = str_contains(line, "Starting") || str_contains(line, "Building")
            || str_contains(line, "Configuring") || str_contains(line, "Downloaded")
            || str_contains(line, "Downloading") || str_contains(line, "Resolving")
            || str_contains(line, "Completed") || str_contains(line, "Installing");
        let kind = if progress {
            MakeLine::Progress
        } else if str_contains(line, "Error:") || str_contains(line, "error:") || str_contains(line, "Failed") {
            MakeLine::Error
        } else {
            MakeLine::Other
        };
        self.keep(line, kind == MakeLine::Error);
        kind
    }
}

/// The words shown for a progress line of a plain `make` build: the line without ANSI
/// escape sequences, split on white space.
pub fn make_progress_words(line: &str) -> (r: Vec<String>)
    ensures
        r.deep_view() == words_spec(trim_spec(ansi_stripped(line@))),
{
    let plain = strip_ansi(line);
    let t = trim(plain.as_str());
    split_whitespace(t.as_str())
}

/// How a line of `gleam export` output is shown: progress lines as their words, problem
/// lines as the trimmed line, others not at all.
pub fn gleam_line(line: &str) -> (r: GleamLine)
    ensures
        gleam_progress(trim_spec(line@)) ==> (r matches GleamLine::Progress(w) && w.deep_view() == words_spec(trim_spec(line@))),
        gleam_problem(trim_spec(line@)) ==> (r matches GleamLine::Problem(t) && t@ == trim_spec(line@)),
        !gleam_progress(trim_spec(line@)) && !gleam_problem(trim_spec(line@)) ==> r is Other,
{
    let t = trim(line);
    let tt = t.as_str();
    if str_contains(tt, "Downloading") || str_contains(tt, "Downloaded") || str_contains(tt, "Compiling")
        || str_contains(tt, "Compiled") || str_contains(tt, "Exported") {
        GleamLine::Progress(split_whitespace(tt))
    } else if str_contains(tt, "Error") || str_contains(tt, "error") || str_contains(tt, "failed") {
        GleamLine::Problem(t)
    } else {
        GleamLine::Other
    }
}

/// A line of `cmake --build` output that mentions `error:` or `failed` in lowercase is a
/// failure: it is logged as one and never shown as progress.
pub proof fn lemma_cmake_error_lines_fail(line: Seq<char>)
    requires
        contains_spec(line, "error:"@) || contains_spec(line, "failed"@),
    ensures
        cmake_build_error(line),
{
    reveal_strlit("error:");
    reveal_strlit("failed");
    assert(lower_spec("error:"@) =~= "error:"@) by {
        reveal_with_fuel(lower_spec, 7);
    }
    assert(lower_spec("failed"@) =~= "failed"@) by {
        reveal_with_fuel(lower_spec, 7);
    }
    if contains_spec(line, "error:"@) {
        lemma_lower_keeps_occurrences(line, "error:"@);
    } else {
        lemma_lower_keeps_occurrences(line, "failed"@);
    }
}

/// A line of `make` or `make install` output after `configure` marks the build as failed
/// exactly when it mentions `error:` or `failed`; any other line, whatever it says, does not.
pub proof fn lemma_autotools_failure_lines(line: Seq<char>)
    ensures
        contains_spec(line, "error:"@) ==> autotools_error(line),
        contains_spec(line, "failed"@) ==> autotools_error(line),
        !contains_spec(line, "error:"@) && !contains_spec(line, "failed"@) ==> !autotools_error(line),
{
}

/// How each tool's output lines are told apart, in the words the tools print: a line is a
/// failure or progress exactly when it holds one of these texts.
pub proof fn lemma_line_classes(line: Seq<char>)
    ensures
        cmake_install_error(line) <==> (contains_spec(line, "error:"@) || contains_spec(line, "failed"@)
            || contains_spec(line, "CMake Error"@)),
        configure_error(line) <==> (contains_spec(line, "configure: error:"@) || contains_spec(line, "error:"@)
            || contains_spec(line, "failed"@)),
        cmake_build_progress(line) <==> starts_with_spec(trim_start_spec(line), "--"@),
        make_progress(line) <==> (contains_spec(line, "CC"@) || contains_spec(line, "LD"@)
            || contains_spec(line, "LINK"@) || contains_spec(line, "AR"@) || contains_spec(line, "checking"@)
            || contains_spec(line, "CCLD"@) || contains_spec(line, "LDSHARED"@) || contains_spec(line, "RANLIB"@)
            || contains_spec(line, "Building"@) || contains_spec(line, "Built"@)),
        make_error(line) <==> (!make_progress(line) && (contains_spec(line, "error:"@) || contains_spec(
            line,
            "No targets."@,
        ) || contains_spec(line, "make: ***"@))),
        make_install_error(line) <==> (contains_spec(trim_spec(line), "error"@) || contains_spec(
            trim_spec(line),
            "make: ***"@,
        ) || contains_spec(trim_spec(line), "No targets."@)),
        go_error(line) <==> (contains_spec(line, "error"@) || contains_spec(line, "failed"@)),
        cabal_progress(line) <==> (contains_spec(line, "Starting"@) || contains_spec(line, "Building"@)
            || contains_spec(line, "Configuring"@) || contains_spec(line, "Downloaded"@) || contains_spec(
            line,
            "Downloading"@,
        ) || contains_spec(line, "Resolving"@) || contains_spec(line, "Completed"@) || contains_spec(
            line,
            "Installing"@,
        )),
        cabal_error(line) <==> (!cabal_progress(line) && (contains_spec(line, "Error:"@) || contains_spec(
            line,
            "error:"@,
        ) || contains_spec(line, "Failed"@))),
        gleam_progress(line) <==> (contains_spec(line, "Downloading"@) || contains_spec(line, "Downloaded"@)
            || contains_spec(line, "Compiling"@) || contains_spec(line, "Compiled"@) || contains_spec(
            line,
            "Exported"@,
        )),
        gleam_problem(line) <==> (!gleam_progress(line) && (contains_spec(line, "Error"@) || contains_spec(
            line,
            "error"@,
        ) || contains_spec(line, "failed"@))),
{
}

} // verus!

