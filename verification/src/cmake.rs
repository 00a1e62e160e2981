//! CMake projects: the option summary shown from `CMakeLists.txt`, and the arguments a
//! configure run uses and remembers.
use vstd::prelude::*;
use crate::text::{
    lemma_remove_char, lacks_char, lemma_lacks_char, lemma_no_match_before_space, lemma_replace_absent,
    lemma_replace_skips_prefix, lemma_trim_white_suffix, occurs_at, concat, contains_spec,
    join, join_spec, replace, replace_spec, split_char, split_spec, str_contains, trim, trim_spec,
};

verus! {

/// The pattern that splits an option declaration into its parts: a quoted string, or a run
/// of non-white characters.
pub open spec fn option_part_pattern() -> Seq<char> {
    "\"[^\"]*\"|\\S+"@
}

/// The matches that `regex` finds for `pattern` in `text`, leftmost first and without
/// overlap, or `None` where the pattern is not a valid regular expression.
pub uninterp spec fn regex_matches(pattern: Seq<char>, text: Seq<char>) -> Option<Seq<Seq<char>>>;

/// `Regex::new(pattern)` then `find_iter(text)` from `regex`: the text of every match, in
/// order. The result is named, not stated: it is whatever the crate's matcher finds.
#[verifier::external_body]
fn regex_find_all(pattern: &str, text: &str) -> (r: Option<Vec<String>>)
    ensures
        r is None <==> regex_matches(pattern@, text@) is None,
        r matches Some(v) ==> regex_matches(pattern@, text@) == Some(v.deep_view()),
{
    regex::Regex::new(pattern).ok().map(|re| re.find_iter(text).map(|m| m.as_str().to_string()).collect())
}

/// An option declaration line without `option(` and `)`.
pub open spec fn option_body(line: Seq<char>) -> Seq<char> {
    replace_spec(replace_spec(line, "option("@, Seq::empty()), ")"@, Seq::empty())
}

/// The arguments that every configure run adds to the user's.
pub open spec fn fixed_arguments() -> Seq<char> {
    " -DCMAKE_INSTALL_PREFIX=/usr/local -Wno-dev"@
}

/// The remembered arguments as shown to the user: without the fixed arguments, trimmed.
pub open spec fn shown_arguments(saved: Seq<char>) -> Seq<char> {
    trim_spec(
        replace_spec(
            replace_spec(saved, "-DCMAKE_INSTALL_PREFIX=/usr/local"@, Seq::empty()),
            "-Wno-dev"@,
            Seq::empty(),
        ),
    )
}

/// The summary shown for an option declaration, from the parts the pattern matched in it:
/// the parts joined by single spaces.
pub fn option_summary_from(parts: &Vec<String>) -> (r: String)
    ensures
        r@ == join_spec(parts.deep_view(), " "@),
{
    join(parts, " ")
}

/// The summary of a `CMakeLists.txt` line, when it declares an option (contains
/// `option(`): the parts of the line without `option(` and `)`, as the pattern
/// `"[^"]*"|\S+` finds them, joined by single spaces. `None` for any other line, and where
/// the pattern would not compile (it always does; the matcher's contract does not say so).
pub fn option_summary(line: &str) -> (r: Option<String>)
    ensures
        !contains_spec(line@, "option("@) ==> r is None,
        contains_spec(line@, "option("@) ==> (match regex_matches(option_part_pattern(), option_body(line@)) {
            Some(parts) => r matches Some(t) && t@ == join_spec(parts, " "@),
            None => r is None,
        }),
{
    if !str_contains(line, "option(") {
        return None;
    }
    proof {
        reveal_strlit("option(");
        reveal_strlit(")");
        reveal_strlit("");
        assert(""@ =~= Seq::<char>::empty());
    }
    let a = replace(line, "option(", "");
    let b = replace(a.as_str(), ")", "");
    match regex_find_all("\"[^\"]*\"|\\S+", b.as_str()) {
        Some(parts) => Some(option_summary_from(&parts)),
        None => None,
    }
}

/// The arguments remembered for the next configure run: the user's, then the fixed ones.
pub fn full_arguments(input: &str) -> (r: String)
    ensures
        r@ == input@ + fixed_arguments(),
{
    concat(input, " -DCMAKE_INSTALL_PREFIX=/usr/local -Wno-dev")
}

/// The remembered arguments as shown to the user: without the fixed ones, trimmed.
pub fn cached_arguments_display(saved: &str) -> (r: String)
    ensures
        r@ == shown_arguments(saved@),
{
    proof {
        reveal_strlit("-DCMAKE_INSTALL_PREFIX=/usr/local");
        reveal_strlit("-Wno-dev");
        reveal_strlit("");
        assert(""@ =~= Seq::<char>::empty());
    }
    let a = replace(saved, "-DCMAKE_INSTALL_PREFIX=/usr/local", "");
    let b = replace(a.as_str(), "-Wno-dev", "");
    trim(b.as_str())
}

/// The arguments given to one configure run, and what the arguments file holds afterwards.
pub struct ArgumentPlan {
    /// The arguments passed to `cmake` after `..` and `-Wno-dev`.
    pub configure_args: Vec<String>,
    /// The new contents of the arguments file, or `None` to leave it as it is.
    pub remember: Option<String>,
}

/// Which arguments a configure run uses. With remembered arguments that the user reuses,
/// those are split on spaces and the file stays. With remembered arguments that the user
/// replaces, the new input is split on spaces and the file gets the input with the fixed
/// arguments. Without remembered arguments, the trimmed input with the fixed arguments is
/// both split on spaces for the run and remembered.
pub fn argument_plan(saved: Option<String>, reuse_saved: bool, input: &str) -> (r: ArgumentPlan)
    ensures
        saved matches Some(prev) ==> (reuse_saved ==> (r.configure_args.deep_view() == split_spec(prev@, ' ')
            && r.remember is None)),
        (saved is Some && !reuse_saved) ==> (r.configure_args.deep_view() == split_spec(input@, ' ')
            && (r.remember matches Some(m) && m@ == input@ + fixed_arguments())),
        saved is None ==> (r.configure_args.deep_view() == split_spec(trim_spec(input@) + fixed_arguments(), ' ')
            && (r.remember matches Some(m) && m@ == trim_spec(input@) + fixed_arguments())),
{
    match saved {
        Some(prev) => {
            if reuse_saved {
                ArgumentPlan { configure_args: split_char(prev.as_str(), ' '), remember: None }
            } else {
                let full = full_arguments(input);
                ArgumentPlan { configure_args: split_char(input, ' '), remember: Some(full) }
            }
        },
        None => {
            let t = trim(input);
            let full = full_arguments(t.as_str());
            ArgumentPlan { configure_args: split_char(full.as_str(), ' '), remember: Some(full) }
        },
    }
}

/// The arguments of the `cmake` configure command run from the build directory.
pub fn configure_command_args(args: &Vec<String>) -> (r: Vec<String>)
    ensures
        r.deep_view() == seq![".."@, "-Wno-dev"@] + args.deep_view(),
{
    let mut r: Vec<String> = Vec::new();
    r.push(String::from_str(".."));
    r.push(String::from_str("-Wno-dev"));
    let n = args.len();
    let mut i: usize = 0;
    while i < n
        invariant
            n == args@.len(),
            i <= n,
            r.deep_view() == seq![".."@, "-Wno-dev"@] + args.deep_view().take(i as int),
        decreases n - i,
    {
        let ghost before = r.deep_view();
        r.push(args[i].clone());
        assert(r.deep_view() =~= before.push(args@[i as int]@));
        i = i + 1;
        assert(args.deep_view().take(i as int) =~= args.deep_view().take(i - 1).push(args@[i - 1]@));
    }
    assert(args.deep_view().take(n as int) =~= args.deep_view());
    r
}

/// Arguments remembered from a run are shown back as the user typed them, trimmed, as long
/// as the user's input does not itself hold one of the fixed arguments.
pub proof fn lemma_remembered_arguments_shown_as_typed(input: Seq<char>)
    requires
        !contains_spec(input, "-DCMAKE_INSTALL_PREFIX=/usr/local"@),
        !contains_spec(input, "-Wno-dev"@),
    ensures
        shown_arguments(input + fixed_arguments()) == trim_spec(input),
{
    reveal_strlit("-DCMAKE_INSTALL_PREFIX=/usr/local");
    reveal_strlit("-Wno-dev");
    reveal_strlit(" -DCMAKE_INSTALL_PREFIX=/usr/local -Wno-dev");
    let p1 = "-DCMAKE_INSTALL_PREFIX=/usr/local"@;
    let p2 = "-Wno-dev"@;
    let sp = seq![' '];
    assert(fixed_arguments() =~= sp + p1 + sp + p2);
    assert(lacks_char(p1, ' ')) by {
        reveal_with_fuel(lacks_char, 34);
    }
    assert(lacks_char(p2, ' ')) by {
        reveal_with_fuel(lacks_char, 9);
    }
    lemma_lacks_char(p1, ' ');
    lemma_lacks_char(p2, ' ');
    let empty = Seq::<char>::empty();
    // first pass: the prefix flag is removed from the fixed arguments only
    let tail = sp + p2;
    assert(!contains_spec(tail, p1)) by {
        if contains_spec(tail, p1) {
            let i = choose|i: int| occurs_at(tail, p1, i);
        }
    }
    lemma_replace_absent(tail, p1, empty);
    assert(replace_spec(p1 + tail, p1, empty) == replace_spec(tail, p1, empty)) by {
        assert(occurs_at(p1 + tail, p1, 0)) by {
            assert((p1 + tail).subrange(0, p1.len() as int) =~= p1);
        }
        assert((p1 + tail).skip(p1.len() as int) =~= tail);
        assert(empty + replace_spec(tail, p1, empty) =~= replace_spec(tail, p1, empty));
    }
    assert(!occurs_at(sp + (p1 + tail), p1, 0));
    lemma_replace_skips_prefix(sp, p1 + tail, p1, empty);
    assert(fixed_arguments() =~= sp + (p1 + tail));
    lemma_no_match_before_space(input, fixed_arguments(), p1);
    lemma_replace_skips_prefix(input, fixed_arguments(), p1, empty);
    let once = input + (sp + tail);
    assert(replace_spec(input + fixed_arguments(), p1, empty) =~= once);
    // second pass: the other flag is removed, two spaces stay
    let two = sp + sp;
    assert(sp + tail =~= two + p2);
    assert(replace_spec(p2, p2, empty) == empty) by {
        assert(occurs_at(p2, p2, 0)) by {
            assert(p2.subrange(0, p2.len() as int) =~= p2);
        }
        assert(p2.skip(p2.len() as int) =~= empty);
        assert(empty + replace_spec(empty, p2, empty) =~= empty);
    }
    assert forall|i: int| 0 <= i < two.len() implies !occurs_at(two + p2, p2, i) by {
        if occurs_at(two + p2, p2, i) {
            assert((two + p2).subrange(i, i + p2.len())[0] == ' ');
        }
    }
    lemma_replace_skips_prefix(two, p2, p2, empty);
    lemma_no_match_before_space(input, two + p2, p2);
    lemma_replace_skips_prefix(input, two + p2, p2, empty);
    assert(replace_spec(once, p2, empty) =~= input + two);
    lemma_trim_white_suffix(input, two);
}

/// The part of an option line that the pattern is run on has every `)` taken out.
pub proof fn lemma_option_body_has_no_parenthesis(line: Seq<char>)
    ensures
        !option_body(line).contains(')'),
{
    reveal_strlit(")");
    reveal_strlit("");
    assert(")"@ =~= seq![')']);
    lemma_remove_char(replace_spec(line, "option("@, Seq::empty()), ')');
}

} // verus!

