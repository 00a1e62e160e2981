//! Paths as text: file names and the locations the installer works with.
use vstd::prelude::*;
use crate::text::{join_spec, split_char, split_from, split_spec, str_equal};
use path_absolutize::Absolutize;

verus! {

/// A piece of a path between separators that names something: not empty and not `.`.
pub open spec fn is_named_piece(p: Seq<char>) -> bool {
    p.len() > 0 && p != seq!['.']
}

/// The last piece of `ps` that names something.
pub open spec fn last_named(ps: Seq<Seq<char>>) -> Option<Seq<char>>
    decreases ps.len(),
{
    if ps.len() == 0 {
        None
    } else if is_named_piece(ps.last()) {
        Some(ps.last())
    } else {
        last_named(ps.drop_last())
    }
}

/// The final component of a path, as `Path::file_name` gives it on Unix: the last piece
/// that is neither empty nor `.`, unless that piece is `..` or there is none.
pub open spec fn file_name_spec(path: Seq<char>) -> Option<Seq<char>> {
    match last_named(split_spec(path, '/')) {
        Some(p) => if p == seq!['.', '.'] {
            None
        } else {
            Some(p)
        },
        None => None,
    }
}

/// `Path::file_name` of a path given as text.
pub fn file_name(path: &str) -> (r: Option<String>)
    ensures
        r matches Some(n) ==> file_name_spec(path@) == Some(n@),
        r is None ==> file_name_spec(path@) is None,
{
    let pieces = split_char(path, '/');
    let ghost ps = pieces.deep_view();
    let mut k = pieces.len();
    assert(ps.take(k as int) =~= ps);
    while k > 0
        invariant
            k <= pieces@.len(),
            ps == pieces.deep_view(),
            ps == split_spec(path@, '/'),
            last_named(ps) == last_named(ps.take(k as int)),
        decreases k,
    {
        let ghost t = ps.take(k as int);
        assert(t.drop_last() =~= ps.take(k - 1));
        let p = pieces[k - 1].as_str();
        if !p.is_empty() && !str_equal(p, ".") {
            assert(p@ != seq!['.']) by {
                reveal_strlit(".");
                assert("."@ =~= seq!['.']);
            }
            if str_equal(p, "..") {
                assert(p@ == seq!['.', '.']) by {
                    reveal_strlit("..");
                    assert(".."@ =~= seq!['.', '.']);
                }
                return None;
            }
            assert(p@ != seq!['.', '.']) by {
                reveal_strlit("..");
                assert(".."@ =~= seq!['.', '.']);
            }
            return Some(pieces[k - 1].clone());
        }
        assert(!is_named_piece(t.last())) by {
            if !p.is_empty() {
                reveal_strlit(".");
                assert("."@ =~= seq!['.']);
            }
        }
        k = k - 1;
    }
    None
}

/// The pieces kept after resolving `pieces` in order on top of `stack`: empty pieces and
/// `.` are skipped, `..` drops the last kept piece (none at the root), others are kept.
pub open spec fn resolve_pieces(stack: Seq<Seq<char>>, pieces: Seq<Seq<char>>) -> Seq<Seq<char>>
    decreases pieces.len(),
{
    if pieces.len() == 0 {
        stack
    } else {
        let p = pieces[0];
        let next = if p.len() == 0 || p == seq!['.'] {
            stack
        } else if p == seq!['.', '.'] {
            if stack.len() > 0 {
                stack.drop_last()
            } else {
                stack
            }
        } else {
            stack.push(p)
        };
        resolve_pieces(next, pieces.drop_first())
    }
}

/// An absolute path with its `.`, `..` and empty pieces resolved without looking at the
/// file system: `/` followed by the kept pieces joined by `/`.
pub open spec fn lexically_absolute(path: Seq<char>) -> Seq<char> {
    seq!['/'] + join_spec(resolve_pieces(Seq::empty(), split_spec(path, '/')), seq!['/'])
}

/// The path starts at the root.
pub open spec fn is_absolute(path: Seq<char>) -> bool {
    path.len() > 0 && path[0] == '/'
}

/// The path is absolute and has nothing left to resolve.
pub open spec fn is_resolved_absolute(path: Seq<char>) -> bool {
    is_absolute(path) && lexically_absolute(path) == path
}

/// `Path::absolutize` from `path_absolutize`, as text. An absolute path never reads the
/// working directory: its result is its lexical resolution. A relative path is resolved the
/// same way after the working directory (`std::env::current_dir`, which POSIX `getcwd` gives
/// absolute and without `.` or `..` pieces); which directory that is, the contract does not
/// say. `None` stands for a failure to read the working directory or a result that is not
/// UTF-8.
#[verifier::external_body]
fn absolutize_text(path: &str) -> (r: Option<String>)
    ensures
        is_absolute(path@) ==> (r is Some && r.unwrap()@ == lexically_absolute(path@)),
        !is_absolute(path@) && r is Some ==> exists|cwd: Seq<char>|
            is_resolved_absolute(cwd) && r.unwrap()@ == #[trigger] lexically_absolute(cwd + seq!['/'] + path@),
        r is Some ==> is_resolved_absolute(r.unwrap()@),
{
    std::path::Path::new(path).absolutize().ok().and_then(|p| p.to_str().map(|s| s.to_string()))
}

/// The absolute form of `path`, with `.`, `..` and empty pieces resolved; a relative path
/// is resolved after the working directory. `None` when the working directory cannot be
/// read or the result is not UTF-8; an absolute path always has a result. Whatever comes
/// back is absolute and has nothing left to resolve, so resolving it again changes nothing.
pub fn absolutize_path(path: String) -> (r: Option<String>)
    ensures
        is_absolute(path@) ==> (r matches Some(a) && a@ == lexically_absolute(path@)),
        !is_absolute(path@) ==> (r matches Some(a) ==> exists|cwd: Seq<char>|
            is_resolved_absolute(cwd) && a@ == #[trigger] lexically_absolute(cwd + seq!['/'] + path@)),
        r matches Some(a) ==> is_resolved_absolute(a@),
{
    absolutize_text(path.as_str())
}

/// A piece of a resolved path: not empty, not `.` or `..`, and without `/`.
pub open spec fn is_clean_piece(p: Seq<char>) -> bool {
    p.len() > 0 && p != seq!['.'] && p != seq!['.', '.'] && !p.contains('/')
}

/// Every piece of `ps` is clean.
pub open spec fn all_clean(ps: Seq<Seq<char>>) -> bool {
    forall|k: int| 0 <= k < ps.len() ==> is_clean_piece(#[trigger] ps[k])
}

/// Splitting never yields a piece holding the separator.
proof fn lemma_split_pieces_lack_separator(s: Seq<char>, c: char, cur: Seq<char>)
    requires
        !cur.contains(c),
    ensures
        forall|k: int| 0 <= k < split_from(s, c, cur).len() ==> !(#[trigger] split_from(s, c, cur)[k]).contains(c),
        split_from(s, c, cur).len() > 0,
    decreases s.len(),
{
    if s.len() > 0 {
        if s[0] == c {
            lemma_split_pieces_lack_separator(s.drop_first(), c, Seq::empty());
            let rest = split_from(s.drop_first(), c, Seq::empty());
            assert forall|k: int| 0 <= k < split_from(s, c, cur).len() implies !(#[trigger] split_from(s, c, cur)[k]).contains(c) by {
                if k > 0 {
                    assert(split_from(s, c, cur)[k] == rest[k - 1]);
                }
            }
        } else {
            assert(!cur.push(s[0]).contains(c)) by {
                if cur.push(s[0]).contains(c) {
                    let j = choose|j: int| 0 <= j < cur.push(s[0]).len() && cur.push(s[0])[j] == c;
                    if j < cur.len() {
                        assert(cur[j] == c);
                    }
                }
            }
            lemma_split_pieces_lack_separator(s.drop_first(), c, cur.push(s[0]));
        }
    }
}

/// Resolving pieces without `/` on a clean stack leaves a clean stack.
proof fn lemma_resolve_clean(stack: Seq<Seq<char>>, pieces: Seq<Seq<char>>)
    requires
        all_clean(stack),
        forall|k: int| 0 <= k < pieces.len() ==> !(#[trigger] pieces[k]).contains('/'),
    ensures
        all_clean(resolve_pieces(stack, pieces)),
    decreases pieces.len(),
{
    if pieces.len() > 0 {
        let p = pieces[0];
        let next = if p.len() == 0 || p == seq!['.'] {
            stack
        } else if p == seq!['.', '.'] {
            if stack.len() > 0 {
                stack.drop_last()
            } else {
                stack
            }
        } else {
            stack.push(p)
        };
        assert(all_clean(next)) by {
            if !(p.len() == 0 || p == seq!['.'] || p == seq!['.', '.']) {
                assert forall|k: int| 0 <= k < next.len() implies is_clean_piece(#[trigger] next[k]) by {
                    if k < stack.len() {
                        assert(next[k] == stack[k]);
                    }
                }
            } else if p == seq!['.', '.'] && stack.len() > 0 {
                assert forall|k: int| 0 <= k < next.len() implies is_clean_piece(#[trigger] next[k]) by {
                    assert(next[k] == stack[k]);
                }
            }
        }
        assert forall|k: int| 0 <= k < pieces.drop_first().len() implies !(#[trigger] pieces.drop_first()[k]).contains('/') by {
            assert(pieces.drop_first()[k] == pieces[k + 1]);
        }
        lemma_resolve_clean(next, pieces.drop_first());
    }
}

/// Resolving clean pieces keeps them all.
proof fn lemma_resolve_keeps_clean(stack: Seq<Seq<char>>, pieces: Seq<Seq<char>>)
    requires
        all_clean(pieces),
    ensures
        resolve_pieces(stack, pieces) == stack + pieces,
    decreases pieces.len(),
{
    if pieces.len() == 0 {
        assert(stack + pieces =~= stack);
    } else {
        assert(is_clean_piece(pieces[0]));
        assert(all_clean(pieces.drop_first())) by {
            assert forall|k: int| 0 <= k < pieces.drop_first().len() implies is_clean_piece(#[trigger] pieces.drop_first()[k]) by {
                assert(pieces.drop_first()[k] == pieces[k + 1]);
            }
        }
        lemma_resolve_keeps_clean(stack.push(pieces[0]), pieces.drop_first());
        assert(stack.push(pieces[0]) + pieces.drop_first() =~= stack + pieces);
    }
}

/// Splitting a concatenation: the pieces of `x` but its last, then the pieces of `y`
/// continuing the last piece of `x`.
proof fn lemma_split_concat(x: Seq<char>, y: Seq<char>, c: char, cur: Seq<char>)
    ensures
        split_from(x, c, cur).len() > 0,
        split_from(x + y, c, cur) == split_from(x, c, cur).drop_last() + split_from(
            y,
            c,
            split_from(x, c, cur).last(),
        ),
    decreases x.len(),
{
    if x.len() == 0 {
        assert(x + y =~= y);
        assert(split_from(x, c, cur).drop_last() + split_from(y, c, cur) =~= split_from(y, c, cur));
    } else {
        assert((x + y).drop_first() =~= x.drop_first() + y);
        if x[0] == c {
            lemma_split_concat(x.drop_first(), y, c, Seq::empty());
            let a = split_from(x.drop_first(), c, Seq::empty());
            assert((seq![cur] + a).drop_last() =~= seq![cur] + a.drop_last());
            assert((seq![cur] + a).last() == a.last());
            assert(seq![cur] + (a.drop_last() + split_from(y, c, a.last())) =~= (seq![cur] + a).drop_last()
                + split_from(y, c, a.last()));
        } else {
            lemma_split_concat(x.drop_first(), y, c, cur.push(x[0]));
        }
    }
}

/// Text without the separator is a single piece, continuing `cur`.
proof fn lemma_split_no_separator(y: Seq<char>, c: char, cur: Seq<char>)
    requires
        !y.contains(c),
    ensures
        split_from(y, c, cur) == seq![cur + y],
    decreases y.len(),
{
    if y.len() == 0 {
        assert(cur + y =~= cur);
    } else {
        assert(y[0] != c);
        assert(!y.drop_first().contains(c)) by {
            if y.drop_first().contains(c) {
                let j = choose|j: int| 0 <= j < y.drop_first().len() && y.drop_first()[j] == c;
                assert(y[j + 1] == c);
            }
        }
        lemma_split_no_separator(y.drop_first(), c, cur.push(y[0]));
        assert(cur.push(y[0]) + y.drop_first() =~= cur + y);
    }
}

/// Splitting the join of pieces without the separator gives the pieces back.
proof fn lemma_split_join(st: Seq<Seq<char>>, c: char)
    requires
        st.len() > 0,
        forall|k: int| 0 <= k < st.len() ==> !(#[trigger] st[k]).contains(c),
    ensures
        split_spec(join_spec(st, seq![c]), c) == st,
    decreases st.len(),
{
    if st.len() == 1 {
        lemma_split_no_separator(st[0], c, Seq::empty());
        assert(Seq::<char>::empty() + st[0] =~= st[0]);
        assert(seq![st[0]] =~= st);
    } else {
        let init = st.drop_last();
        assert forall|k: int| 0 <= k < init.len() implies !(#[trigger] init[k]).contains(c) by {
            assert(init[k] == st[k]);
        }
        lemma_split_join(init, c);
        let j = join_spec(init, seq![c]);
        let last = st.last();
        assert(!last.contains(c)) by {
            assert(st[st.len() - 1] == last);
        }
        assert(join_spec(st, seq![c]) =~= j + (seq![c] + last));
        lemma_split_concat(j, seq![c] + last, c, Seq::empty());
        let a = split_from(j, c, Seq::empty());
        assert(a == init);
        assert((seq![c] + last).drop_first() =~= last);
        lemma_split_no_separator(last, c, Seq::empty());
        assert(Seq::<char>::empty() + last =~= last);
        assert(split_from(seq![c] + last, c, a.last()) == seq![a.last()] + seq![last]);
        assert(a.drop_last() + (seq![a.last()] + seq![last]) =~= st);
    }
}

/// Resolving a path that was already resolved changes nothing: the result of
/// `lexically_absolute` is absolute and has nothing left to resolve.
pub proof fn lemma_lexically_absolute_resolved(path: Seq<char>)
    ensures
        is_resolved_absolute(lexically_absolute(path)),
{
    let empty = Seq::<Seq<char>>::empty();
    let pieces = split_spec(path, '/');
    lemma_split_pieces_lack_separator(path, '/', Seq::empty());
    lemma_resolve_clean(empty, pieces);
    let st = resolve_pieces(empty, pieces);
    let q = lexically_absolute(path);
    assert(q == seq!['/'] + join_spec(st, seq!['/']));
    assert(q.drop_first() =~= join_spec(st, seq!['/']));
    assert(split_spec(q, '/') == seq![Seq::<char>::empty()] + split_from(q.drop_first(), '/', Seq::empty()));
    if st.len() == 0 {
        assert(join_spec(st, seq!['/']) =~= Seq::<char>::empty());
        assert(split_spec(q, '/') =~= seq![Seq::<char>::empty(), Seq::<char>::empty()]);
        assert(resolve_pieces(empty, split_spec(q, '/')) =~= empty) by {
            let ps = split_spec(q, '/');
            let p1 = ps.drop_first();
            assert(p1 =~= seq![Seq::<char>::empty()]);
            assert(p1.drop_first() =~= Seq::<Seq<char>>::empty());
            assert(ps[0].len() == 0);
            assert(p1[0].len() == 0);
            assert(resolve_pieces(empty, p1.drop_first()) == empty);
            assert(resolve_pieces(empty, p1) == resolve_pieces(empty, p1.drop_first()));
            assert(resolve_pieces(empty, ps) == resolve_pieces(empty, p1));
        }
        assert(lexically_absolute(q) =~= q);
    } else {
        assert forall|k: int| 0 <= k < st.len() implies !(#[trigger] st[k]).contains('/') by {
            assert(is_clean_piece(st[k]));
        }
        lemma_split_join(st, '/');
        let ps = split_spec(q, '/');
        assert(ps =~= seq![Seq::<char>::empty()] + st);
        assert(ps.drop_first() =~= st);
        lemma_resolve_keeps_clean(empty, st);
        assert(empty + st =~= st);
        assert(resolve_pieces(empty, ps) == resolve_pieces(empty, st));
    }
}

/// A resolved absolute path, such as every result of `absolutize_path`, is the root
/// followed by pieces joined by `/`, none of them empty, `.` or `..`.
pub proof fn lemma_resolved_pieces_are_clean(path: Seq<char>)
    requires
        is_resolved_absolute(path),
    ensures
        exists|st: Seq<Seq<char>>| all_clean(st) && path == seq!['/'] + join_spec(st, seq!['/']),
{
    let pieces = split_spec(path, '/');
    lemma_split_pieces_lack_separator(path, '/', Seq::empty());
    lemma_resolve_clean(Seq::empty(), pieces);
    let st = resolve_pieces(Seq::empty(), pieces);
    assert(all_clean(st) && path == seq!['/'] + join_spec(st, seq!['/']));
}

} // verus!
