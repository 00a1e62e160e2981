//! Character-level text operations, each tied to a specification over `Seq<char>`.
use vstd::prelude::*;

verus! {

broadcast use vstd::string::group_string_axioms;

/// Unicode `White_Space`: the set behind `char::is_whitespace`, `str::trim` and `\s`.
pub open spec fn is_white(c: char) -> bool {
    let u = c as u32;
    ||| 0x09 <= u <= 0x0D
    ||| u == 0x20
    ||| u == 0x85
    ||| u == 0xA0
    ||| u == 0x1680
    ||| 0x2000 <= u <= 0x200A
    ||| u == 0x2028
    ||| u == 0x2029
    ||| u == 0x202F
    ||| u == 0x205F
    ||| u == 0x3000
}

/// `pat` occurs in `s` starting at index `i`.
pub open spec fn occurs_at(s: Seq<char>, pat: Seq<char>, i: int) -> bool {
    &&& 0 <= i
    &&& i + pat.len() <= s.len()
    &&& s.subrange(i, i + pat.len()) == pat
}

/// `pat` occurs somewhere in `s` (`str::contains`).
pub open spec fn contains_spec(s: Seq<char>, pat: Seq<char>) -> bool {
    exists|i: int| occurs_at(s, pat, i)
}

/// `s` begins with `pat` (`str::starts_with`).
pub open spec fn starts_with_spec(s: Seq<char>, pat: Seq<char>) -> bool {
    occurs_at(s, pat, 0)
}

/// `s` ends with `pat` (`str::ends_with`).
pub open spec fn ends_with_spec(s: Seq<char>, pat: Seq<char>) -> bool {
    occurs_at(s, pat, s.len() - pat.len())
}

/// `s` without its leading white space (`str::trim_start`).
pub open spec fn trim_start_spec(s: Seq<char>) -> Seq<char>
    decreases s.len(),
{
    if s.len() > 0 && is_white(s[0]) {
        trim_start_spec(s.drop_first())
    } else {
        s
    }
}

/// `s` without its trailing white space (`str::trim_end`).
pub open spec fn trim_end_spec(s: Seq<char>) -> Seq<char>
    decreases s.len(),
{
    if s.len() > 0 && is_white(s.last()) {
        trim_end_spec(s.drop_last())
    } else {
        s
    }
}

/// `s` without white space at either end (`str::trim`).
pub open spec fn trim_spec(s: Seq<char>) -> Seq<char> {
    trim_end_spec(trim_start_spec(s))
}

/// Appends `c` to `s` (`String::push`).
#[verifier::external_body]
pub fn push_char(s: &mut String, c: char)
    ensures
        final(s)@ == old(s)@.push(c),
{
    s.push(c);
}

/// Whether `c` is white space in the sense of [`is_white`].
pub fn is_white_char(c: char) -> (r: bool)
    ensures
        r == is_white(c),
{
    let u = c as u32;
    (0x09 <= u && u <= 0x0D) || u == 0x20 || u == 0x85 || u == 0xA0 || u == 0x1680 || (0x2000
        <= u && u <= 0x200A) || u == 0x2028 || u == 0x2029 || u == 0x202F || u == 0x205F || u
        == 0x3000
}

/// The characters of `s`, in order.
pub fn chars_of(s: &str) -> (v: Vec<char>)
    ensures
        v@ == s@,
{
    let mut v: Vec<char> = Vec::new();
    for c in it: s.chars()
        invariant
            v@ == it.seq().take(it.index()),
    {
        v.push(c);
    }
    v
}

/// The string made of `v[lo..hi]`.
pub fn string_of_range(v: &Vec<char>, lo: usize, hi: usize) -> (s: String)
    requires
        lo <= hi <= v@.len(),
    ensures
        s@ == v@.subrange(lo as int, hi as int),
{
    let mut s = String::new();
    let mut i = lo;
    while i < hi
        invariant
            lo <= i <= hi <= v@.len(),
            s@ == v@.subrange(lo as int, i as int),
        decreases hi - i,
    {
        push_char(&mut s, v[i]);
        i = i + 1;
        assert(s@ =~= v@.subrange(lo as int, i as int));
    }
    s
}

/// The string made of all of `v`.
pub fn string_of(v: &Vec<char>) -> (s: String)
    ensures
        s@ == v@,
{
    let s = string_of_range(v, 0, v.len());
    assert(v@.subrange(0, v@.len() as int) =~= v@);
    s
}

/// Whether `pat` occurs in `s` at index `i`.
pub fn occurs_at_exec(s: &Vec<char>, pat: &Vec<char>, i: usize) -> (r: bool)
    ensures
        r == occurs_at(s@, pat@, i as int),
{
    if pat.len() > s.len() || i > s.len() - pat.len() {
        return false;
    }
    let n = s.len();
    let mut j: usize = 0;
    while j < pat.len()
        invariant
            n == s@.len(),
            i + pat@.len() <= s@.len(),
            j <= pat@.len(),
            forall|k: int| 0 <= k < j ==> s@[i + k] == pat@[k],
        decreases pat@.len() - j,
    {
        if s[i + j] != pat[j] {
            assert(s@.subrange(i as int, i + pat@.len())[j as int] != pat@[j as int]);
            return false;
        }
        j = j + 1;
    }
    assert(s@.subrange(i as int, i + pat@.len()) =~= pat@);
    true
}

/// Whether `pat` occurs anywhere in `s`.
pub fn seq_contains(s: &Vec<char>, pat: &Vec<char>) -> (r: bool)
    ensures
        r == contains_spec(s@, pat@),
{
    if pat.len() > s.len() {
        return false;
    }
    let last = s.len() - pat.len();
    let mut i: usize = 0;
    loop
        invariant
            last == s@.len() - pat@.len(),
            i <= last,
            forall|k: int| 0 <= k < i ==> !occurs_at(s@, pat@, k),
        decreases last - i,
    {
        if occurs_at_exec(s, pat, i) {
            return true;
        }
        if i == last {
            assert forall|k: int| occurs_at(s@, pat@, k) implies 0 <= k < i + 1 by {}
            return false;
        }
        i = i + 1;
    }
}

/// `str::contains` for a string pattern.
pub fn str_contains(s: &str, pat: &str) -> (r: bool)
    ensures
        r == contains_spec(s@, pat@),
{
    let sv = chars_of(s);
    let pv = chars_of(pat);
    seq_contains(&sv, &pv)
}

/// `str::starts_with` for a string pattern.
pub fn str_starts_with(s: &str, pat: &str) -> (r: bool)
    ensures
        r == starts_with_spec(s@, pat@),
{
    let sv = chars_of(s);
    let pv = chars_of(pat);
    occurs_at_exec(&sv, &pv, 0)
}

/// `str::ends_with` for a string pattern.
pub fn str_ends_with(s: &str, pat: &str) -> (r: bool)
    ensures
        r == ends_with_spec(s@, pat@),
{
    let sv = chars_of(s);
    let pv = chars_of(pat);
    if pv.len() > sv.len() {
        return false;
    }
    occurs_at_exec(&sv, &pv, sv.len() - pv.len())
}

/// Index of the first character of `v[lo..]` that is not white space (or `v.len()`).
pub fn skip_white(v: &Vec<char>, lo: usize) -> (k: usize)
    requires
        lo <= v@.len(),
    ensures
        lo <= k <= v@.len(),
        trim_start_spec(v@.skip(lo as int)) == v@.skip(k as int),
        forall|j: int| lo <= j < k ==> is_white(v@[j]),
{
    let mut k = lo;
    while k < v.len() && is_white_char(v[k])
        invariant
            lo <= k <= v@.len(),
            trim_start_spec(v@.skip(lo as int)) == trim_start_spec(v@.skip(k as int)),
            forall|j: int| lo <= j < k ==> is_white(v@[j]),
        decreases v@.len() - k,
    {
        assert(v@.skip(k as int).drop_first() =~= v@.skip(k + 1));
        k = k + 1;
    }
    k
}

/// Length of `v[..hi]` once its trailing white space is removed.
pub fn end_without_white(v: &Vec<char>, hi: usize) -> (k: usize)
    requires
        hi <= v@.len(),
    ensures
        k <= hi,
        trim_end_spec(v@.take(hi as int)) == v@.take(k as int),
        forall|j: int| k <= j < hi ==> is_white(v@[j]),
{
    let mut k = hi;
    while k > 0 && is_white_char(v[k - 1])
        invariant
            k <= hi <= v@.len(),
            trim_end_spec(v@.take(hi as int)) == trim_end_spec(v@.take(k as int)),
            forall|j: int| k <= j < hi ==> is_white(v@[j]),
        decreases k,
    {
        assert(v@.take(k as int).drop_last() =~= v@.take(k - 1));
        k = k - 1;
    }
    k
}

/// `str::trim_start`.
pub fn trim_start(s: &str) -> (r: String)
    ensures
        r@ == trim_start_spec(s@),
{
    let v = chars_of(s);
    let k = skip_white(&v, 0);
    assert(v@.skip(0) =~= v@);
    let r = string_of_range(&v, k, v.len());
    assert(v@.subrange(k as int, v@.len() as int) =~= v@.skip(k as int));
    r
}

/// `str::trim_end`.
pub fn trim_end(s: &str) -> (r: String)
    ensures
        r@ == trim_end_spec(s@),
{
    let v = chars_of(s);
    let k = end_without_white(&v, v.len());
    assert(v@.take(v@.len() as int) =~= v@);
    let r = string_of_range(&v, 0, k);
    assert(v@.subrange(0, k as int) =~= v@.take(k as int));
    r
}

/// `str::trim`.
pub fn trim(s: &str) -> (r: String)
    ensures
        r@ == trim_spec(s@),
{
    let a = trim_start(s);
    trim_end(a.as_str())
}

/// `s` with every non-overlapping occurrence of `pat`, scanned from the left,
/// replaced by `rep` (`str::replace` for a non-empty pattern).
pub open spec fn replace_spec(s: Seq<char>, pat: Seq<char>, rep: Seq<char>) -> Seq<char>
    decreases s.len(),
{
    if s.len() == 0 || pat.len() == 0 {
        s
    } else if occurs_at(s, pat, 0) {
        rep + replace_spec(s.skip(pat.len() as int), pat, rep)
    } else {
        seq![s[0]] + replace_spec(s.drop_first(), pat, rep)
    }
}

/// The pieces of `s` between separators `c`, given the piece `cur` read so far.
pub open spec fn split_from(s: Seq<char>, c: char, cur: Seq<char>) -> Seq<Seq<char>>
    decreases s.len(),
{
    if s.len() == 0 {
        seq![cur]
    } else if s[0] == c {
        seq![cur] + split_from(s.drop_first(), c, Seq::empty())
    } else {
        split_from(s.drop_first(), c, cur.push(s[0]))
    }
}

/// The pieces of `s` between separators `c`, empty pieces included (`str::split` on a `char`).
pub open spec fn split_spec(s: Seq<char>, c: char) -> Seq<Seq<char>> {
    split_from(s, c, Seq::empty())
}

/// `cur` as a list of one word, or no word when it is empty.
pub open spec fn word_if_any(cur: Seq<char>) -> Seq<Seq<char>> {
    if cur.len() == 0 {
        Seq::empty()
    } else {
        seq![cur]
    }
}

/// The maximal runs of non-white characters of `s`, given the run `cur` read so far.
pub open spec fn words_from(s: Seq<char>, cur: Seq<char>) -> Seq<Seq<char>>
    decreases s.len(),
{
    if s.len() == 0 {
        word_if_any(cur)
    } else if is_white(s[0]) {
        word_if_any(cur) + words_from(s.drop_first(), Seq::empty())
    } else {
        words_from(s.drop_first(), cur.push(s[0]))
    }
}

/// The maximal runs of non-white characters of `s` (`str::split_whitespace`).
pub open spec fn words_spec(s: Seq<char>) -> Seq<Seq<char>> {
    words_from(s, Seq::empty())
}

/// The parts joined with `sep` between consecutive parts (`[T]::join`).
pub open spec fn join_spec(parts: Seq<Seq<char>>, sep: Seq<char>) -> Seq<char>
    decreases parts.len(),
{
    if parts.len() == 0 {
        Seq::empty()
    } else if parts.len() == 1 {
        parts[0]
    } else {
        join_spec(parts.drop_last(), sep) + sep + parts.last()
    }
}

/// The part of `s` after its last `c`, or all of `s` when `c` does not occur.
pub open spec fn after_last(s: Seq<char>, c: char) -> Seq<char>
    decreases s.len(),
{
    if s.len() == 0 || s.last() == c {
        Seq::empty()
    } else {
        after_last(s.drop_last(), c).push(s.last())
    }
}

/// `str::replace` for a non-empty pattern.
pub fn replace(s: &str, pat: &str, rep: &str) -> (r: String)
    requires
        pat@.len() > 0,
    ensures
        r@ == replace_spec(s@, pat@, rep@),
{
    let v = chars_of(s);
    let p = chars_of(pat);
    let n = v.len();
    let mut r = String::new();
    let mut i: usize = 0;
    assert(v@.skip(0) =~= v@);
    assert(r@ + replace_spec(v@.skip(0), pat@, rep@) =~= replace_spec(s@, pat@, rep@));
    while i < n
        invariant
            n == v@.len(),
            v@ == s@,
            p@ == pat@,
            p@.len() > 0,
            i <= n,
            replace_spec(s@, pat@, rep@) == r@ + replace_spec(v@.skip(i as int), pat@, rep@),
        decreases n - i,
    {
        let ghost rest = v@.skip(i as int);
        if occurs_at_exec(&v, &p, i) {
            assert(occurs_at(rest, p@, 0)) by {
                assert(rest.subrange(0, p@.len() as int) =~= v@.subrange(
                    i as int,
                    i + p@.len(),
                ));
            }
            assert(rest.skip(p@.len() as int) =~= v@.skip(i + p@.len()));
            r.append(rep);
            i = i + p.len();
        } else {
            assert(!occurs_at(rest, p@, 0)) by {
                if occurs_at(rest, p@, 0) {
                    assert(rest.subrange(0, p@.len() as int) =~= v@.subrange(
                        i as int,
                        i + p@.len(),
                    ));
                }
            }
            assert(rest.drop_first() =~= v@.skip(i + 1));
            push_char(&mut r, v[i]);
            i = i + 1;
        }
        assert(r@ + replace_spec(v@.skip(i as int), pat@, rep@) =~= replace_spec(
            s@,
            pat@,
            rep@,
        ));
    }
    assert(v@.skip(n as int) =~= Seq::<char>::empty());
    r
}

/// `str::split` on a single character, empty pieces included.
pub fn split_char(s: &str, c: char) -> (r: Vec<String>)
    ensures
        r.deep_view() == split_spec(s@, c),
{
    let v = chars_of(s);
    let n = v.len();
    let mut out: Vec<String> = Vec::new();
    let mut cur = String::new();
    let mut i: usize = 0;
    assert(v@.skip(0) =~= v@);
    assert(out.deep_view() + split_from(v@.skip(0), c, cur@) =~= split_spec(s@, c));
    while i < n
        invariant
            n == v@.len(),
            v@ == s@,
            i <= n,
            split_spec(s@, c) == out.deep_view() + split_from(v@.skip(i as int), c, cur@),
        decreases n - i,
    {
        let ghost rest = v@.skip(i as int);
        assert(rest.drop_first() =~= v@.skip(i + 1));
        if v[i] == c {
            let ghost before = out.deep_view();
            let ghost piece_view = cur@;
            let piece = cur;
            cur = String::new();
            out.push(piece);
            assert(out.deep_view() =~= before.push(piece_view));
        } else {
            push_char(&mut cur, v[i]);
        }
        i = i + 1;
    }
    assert(v@.skip(n as int) =~= Seq::<char>::empty());
    let ghost before = out.deep_view();
    let ghost piece_view = cur@;
    out.push(cur);
    assert(out.deep_view() =~= before.push(piece_view));
    out
}

/// `str::split_whitespace`.
pub fn split_whitespace(s: &str) -> (r: Vec<String>)
    ensures
        r.deep_view() == words_spec(s@),
{
    let v = chars_of(s);
    let n = v.len();
    let mut out: Vec<String> = Vec::new();
    let mut cur = String::new();
    let mut i: usize = 0;
    assert(v@.skip(0) =~= v@);
    assert(out.deep_view() + words_from(v@.skip(0), cur@) =~= words_spec(s@));
    while i < n
        invariant
            n == v@.len(),
            v@ == s@,
            i <= n,
            words_spec(s@) == out.deep_view() + words_from(v@.skip(i as int), cur@),
        decreases n - i,
    {
        let ghost rest = v@.skip(i as int);
        assert(rest.drop_first() =~= v@.skip(i + 1));
        if is_white_char(v[i]) {
            if !cur.as_str().is_empty() {
                let ghost before = out.deep_view();
                let ghost piece_view = cur@;
                let piece = cur;
                cur = String::new();
                out.push(piece);
                assert(out.deep_view() =~= before + word_if_any(piece_view));
            } else {
                assert(word_if_any(cur@) =~= Seq::<Seq<char>>::empty());
                assert(cur@ =~= Seq::<char>::empty());
            }
        } else {
            push_char(&mut cur, v[i]);
        }
        i = i + 1;
    }
    assert(v@.skip(n as int) =~= Seq::<char>::empty());
    if !cur.as_str().is_empty() {
        let ghost before = out.deep_view();
        let ghost piece_view = cur@;
        out.push(cur);
        assert(out.deep_view() =~= before + word_if_any(piece_view));
    } else {
        assert(out.deep_view() + word_if_any(cur@) =~= out.deep_view());
    }
    out
}

/// `[String]::join`.
pub fn join(parts: &Vec<String>, sep: &str) -> (r: String)
    ensures
        r@ == join_spec(parts.deep_view(), sep@),
{
    let mut r = String::new();
    let n = parts.len();
    let mut i: usize = 0;
    while i < n
        invariant
            n == parts@.len(),
            i <= n,
            r@ == join_spec(parts.deep_view().take(i as int), sep@),
        decreases n - i,
    {
        let ghost pv = parts.deep_view();
        assert(pv.take(i + 1).drop_last() =~= pv.take(i as int));
        if i > 0 {
            r.append(sep);
        }
        r.append(parts[i].as_str());
        i = i + 1;
        assert(r@ =~= join_spec(pv.take(i as int), sep@));
    }
    assert(parts.deep_view().take(n as int) =~= parts.deep_view());
    r
}

/// The part of `s` after its last `c` (`s.split(c).last()`).
pub fn after_last_char(s: &str, c: char) -> (r: String)
    ensures
        r@ == after_last(s@, c),
{
    let v = chars_of(s);
    let mut k = v.len();
    assert(v@.take(k as int) =~= v@);
    assert(v@.subrange(k as int, v@.len() as int) =~= Seq::<char>::empty());
    assert(after_last(v@.take(k as int), c) + v@.subrange(k as int, v@.len() as int)
        =~= after_last(s@, c));
    while k > 0 && v[k - 1] != c
        invariant
            k <= v@.len(),
            v@ == s@,
            after_last(s@, c) == after_last(v@.take(k as int), c) + v@.subrange(
                k as int,
                v@.len() as int,
            ),
        decreases k,
    {
        let ghost t = v@.take(k as int);
        assert(t.drop_last() =~= v@.take(k - 1));
        assert(v@.subrange(k - 1, v@.len() as int) =~= seq![t.last()] + v@.subrange(
            k as int,
            v@.len() as int,
        ));
        k = k - 1;
        assert(after_last(v@.take(k as int), c) + v@.subrange(k as int, v@.len() as int)
            =~= after_last(v@.take(k as int), c).push(t.last()) + v@.subrange(
            (k + 1) as int,
            v@.len() as int,
        ));
    }
    let ghost t = v@.take(k as int);
    assert(after_last(t, c) =~= Seq::<char>::empty());
    string_of_range(&v, k, v.len())
}

/// Whether `a` and `b` hold the same characters.
pub fn str_equal(a: &str, b: &str) -> (r: bool)
    ensures
        r == (a@ == b@),
{
    let av = chars_of(a);
    let bv = chars_of(b);
    if av.len() != bv.len() {
        return false;
    }
    let r = occurs_at_exec(&av, &bv, 0);
    assert(r ==> av@ =~= bv@) by {
        if r {
            assert(av@.subrange(0, bv@.len() as int) =~= av@);
        }
    }
    assert(av@ == bv@ ==> r) by {
        if av@ == bv@ {
            assert(av@.subrange(0, bv@.len() as int) =~= av@);
        }
    }
    r
}

/// Whether some item of `items` holds the same characters as `s`.
pub fn any_equal(items: &[String], s: &str) -> (r: bool)
    ensures
        r == items.deep_view().contains(s@),
{
    let n = items.len();
    let mut i: usize = 0;
    while i < n
        invariant
            n == items@.len(),
            i <= n,
            forall|j: int| 0 <= j < i ==> items.deep_view()[j] != s@,
        decreases n - i,
    {
        if str_equal(items[i].as_str(), s) {
            assert(items.deep_view()[i as int] == s@);
            return true;
        }
        i = i + 1;
    }
    false
}

/// `a` followed by `b`.
pub fn concat(a: &str, b: &str) -> (r: String)
    ensures
        r@ == a@ + b@,
{
    let mut r = String::from_str(a);
    r.append(b);
    r
}

/// `cur` without one trailing carriage return.
pub open spec fn strip_cr(cur: Seq<char>) -> Seq<char> {
    if cur.len() > 0 && cur.last() == '\r' {
        cur.drop_last()
    } else {
        cur
    }
}

/// The lines of `s`, given the part `cur` of the current line read so far.
pub open spec fn lines_from(s: Seq<char>, cur: Seq<char>) -> Seq<Seq<char>>
    decreases s.len(),
{
    if s.len() == 0 {
        if cur.len() == 0 {
            Seq::empty()
        } else {
            seq![cur]
        }
    } else if s[0] == '\n' {
        seq![strip_cr(cur)] + lines_from(s.drop_first(), Seq::empty())
    } else {
        lines_from(s.drop_first(), cur.push(s[0]))
    }
}

/// The lines of `s` (`str::lines`): split after each `\n`, each line without its `\n`
/// and then without one `\r` before it, and no empty line after a final `\n`.
pub open spec fn lines_spec(s: Seq<char>) -> Seq<Seq<char>> {
    lines_from(s, Seq::empty())
}

/// `s` without the leading characters equal to `c` (`str::trim_start_matches` on a `char`).
pub open spec fn drop_leading(s: Seq<char>, c: char) -> Seq<char>
    decreases s.len(),
{
    if s.len() > 0 && s[0] == c {
        drop_leading(s.drop_first(), c)
    } else {
        s
    }
}

/// The lowercase mapping of a non-ASCII character, as `char::to_lowercase` yields it.
pub uninterp spec fn unicode_lowercase(c: char) -> Seq<char>;

/// The lowercase form of an ASCII character: `A`..`Z` become `a`..`z`, others stay.
pub open spec fn ascii_lowercase(c: char) -> char {
    if 'A' <= c <= 'Z' {
        ((c as u32) + 32) as char
    } else {
        c
    }
}

/// The lowercase mapping of a character, as `char::to_lowercase` yields it.
pub open spec fn lowercase_of(c: char) -> Seq<char> {
    if (c as u32) < 128 {
        seq![ascii_lowercase(c)]
    } else {
        unicode_lowercase(c)
    }
}

/// The lowercase mapping of each character of `s`, in order.
pub open spec fn lower_spec(s: Seq<char>) -> Seq<char>
    decreases s.len(),
{
    if s.len() == 0 {
        Seq::empty()
    } else {
        lower_spec(s.drop_last()) + lowercase_of(s.last())
    }
}

/// `char::to_lowercase`, collected. The contract states the mapping on ASCII (`A`..`Z`
/// become `a`..`z`, other characters stay) and names it elsewhere.
#[verifier::external_body]
fn char_lowercase(c: char) -> (r: Vec<char>)
    ensures
        r@ == lowercase_of(c),
        (c as u32) >= 128 ==> r@ == unicode_lowercase(c),
{
    c.to_lowercase().collect()
}

/// The lowercase form of `s`, character by character.
pub fn to_lowercase(s: &str) -> (r: String)
    ensures
        r@ == lower_spec(s@),
{
    let v = chars_of(s);
    let n = v.len();
    let mut r = String::new();
    let mut i: usize = 0;
    while i < n
        invariant
            n == v@.len(),
            v@ == s@,
            i <= n,
            r@ == lower_spec(v@.take(i as int)),
        decreases n - i,
    {
        let l = char_lowercase(v[i]);
        assert(v@.take(i + 1).drop_last() =~= v@.take(i as int));
        let ghost before = r@;
        let m = l.len();
        let mut j: usize = 0;
        while j < m
            invariant
                m == l@.len(),
                j <= m,
                r@ == before + l@.take(j as int),
            decreases m - j,
        {
            push_char(&mut r, l[j]);
            j = j + 1;
            assert(r@ =~= before + l@.take(j as int));
        }
        assert(l@.take(m as int) =~= l@);
        i = i + 1;
    }
    assert(v@.take(n as int) =~= v@);
    r
}

/// `s` without its leading characters `c`.
pub fn trim_start_char(s: &str, c: char) -> (r: String)
    ensures
        r@ == drop_leading(s@, c),
{
    let v = chars_of(s);
    let n = v.len();
    let mut k: usize = 0;
    assert(v@.skip(0) =~= v@);
    while k < n && v[k] == c
        invariant
            n == v@.len(),
            k <= n,
            drop_leading(s@, c) == drop_leading(v@.skip(k as int), c),
            v@ == s@,
        decreases n - k,
    {
        assert(v@.skip(k as int).drop_first() =~= v@.skip(k + 1));
        k = k + 1;
    }
    let r = string_of_range(&v, k, n);
    assert(v@.subrange(k as int, n as int) =~= v@.skip(k as int));
    r
}

/// `str::lines`.
pub fn text_lines(s: &str) -> (r: Vec<String>)
    ensures
        r.deep_view() == lines_spec(s@),
{
    let v = chars_of(s);
    let n = v.len();
    let mut out: Vec<String> = Vec::new();
    let mut cur: Vec<char> = Vec::new();
    let mut i: usize = 0;
    assert(v@.skip(0) =~= v@);
    assert(out.deep_view() + lines_from(v@.skip(0), cur@) =~= lines_spec(s@));
    while i < n
        invariant
            n == v@.len(),
            v@ == s@,
            i <= n,
            lines_spec(s@) == out.deep_view() + lines_from(v@.skip(i as int), cur@),
        decreases n - i,
    {
        let ghost rest = v@.skip(i as int);
        assert(rest.drop_first() =~= v@.skip(i + 1));
        if v[i] == '\n' {
            let k = if cur.len() > 0 && cur[cur.len() - 1] == '\r' {
                cur.len() - 1
            } else {
                cur.len()
            };
            let line = string_of_range(&cur, 0, k);
            assert(line@ =~= strip_cr(cur@));
            let ghost before = out.deep_view();
            out.push(line);
            assert(out.deep_view() =~= before + seq![strip_cr(cur@)]);
            cur = Vec::new();
        } else {
            cur.push(v[i]);
        }
        i = i + 1;
    }
    assert(v@.skip(n as int) =~= Seq::<char>::empty());
    if cur.len() > 0 {
        let line = string_of(&cur);
        let ghost before = out.deep_view();
        out.push(line);
        assert(out.deep_view() =~= before + seq![cur@]);
    } else {
        assert(out.deep_view() + lines_from(Seq::<char>::empty(), cur@) =~= out.deep_view());
    }
    out
}

/// `after_last` of a concatenation: the part after the last `c` lies in `post` when `post`
/// holds a `c`, and otherwise runs on from `pre` through all of `post`.
pub proof fn lemma_after_last_concat(pre: Seq<char>, post: Seq<char>, c: char)
    ensures
        post.contains(c) ==> after_last(pre + post, c) == after_last(post, c),
        !post.contains(c) ==> after_last(pre + post, c) == after_last(pre, c) + post,
    decreases post.len(),
{
    if post.len() == 0 {
        assert(pre + post =~= pre);
        assert(after_last(pre, c) + post =~= after_last(pre, c));
    } else {
        let whole = pre + post;
        assert(whole.drop_last() =~= pre + post.drop_last());
        assert(whole.last() == post.last());
        lemma_after_last_concat(pre, post.drop_last(), c);
        if post.last() == c {
            assert(post.contains(c)) by {
                assert(post[post.len() - 1] == c);
            }
        } else {
            assert(post.contains(c) == post.drop_last().contains(c)) by {
                if post.contains(c) {
                    let k = choose|k: int| 0 <= k < post.len() && post[k] == c;
                    assert(post.drop_last()[k] == c);
                }
                if post.drop_last().contains(c) {
                    let k = choose|k: int| 0 <= k < post.drop_last().len() && post.drop_last()[k] == c;
                    assert(post[k] == c);
                }
            }
            if !post.contains(c) {
                assert(after_last(pre, c) + post =~= (after_last(pre, c) + post.drop_last()).push(post.last()));
            }
        }
    }
}

/// The part of `s` after its last `c` holds no `c`, ends `s`, and is either all of `s` or
/// preceded in `s` by a `c`.
pub proof fn lemma_after_last_shape(s: Seq<char>, c: char)
    ensures
        !after_last(s, c).contains(c),
        after_last(s, c).len() <= s.len(),
        s.subrange(s.len() - after_last(s, c).len(), s.len() as int) == after_last(s, c),
        after_last(s, c).len() == s.len() || s[s.len() - after_last(s, c).len() - 1] == c,
    decreases s.len(),
{
    if s.len() == 0 || s.last() == c {
        assert(s.subrange(s.len() as int, s.len() as int) =~= Seq::<char>::empty());
    } else {
        let p = s.drop_last();
        lemma_after_last_shape(p, c);
        let a = after_last(p, c);
        assert(after_last(s, c) == a.push(s.last()));
        assert(s.subrange(s.len() - a.len() - 1, s.len() as int) =~= p.subrange(p.len() - a.len(), p.len() as int).push(s.last()));
        if a.push(s.last()).contains(c) {
            let k = choose|k: int| 0 <= k < a.push(s.last()).len() && a.push(s.last())[k] == c;
            if k < a.len() {
                assert(a[k] == c);
            }
        }
        if a.len() < p.len() {
            assert(s[s.len() - a.len() - 2] == p[p.len() - a.len() - 1]);
        }
    }
}

/// The last piece of a split, given the piece `cur` read so far: the text after the last
/// separator when `s` holds one, else `cur` followed by all of `s`.
proof fn lemma_split_from_last(s: Seq<char>, c: char, cur: Seq<char>)
    ensures
        split_from(s, c, cur).len() > 0,
        s.contains(c) ==> split_from(s, c, cur).last() == after_last(s, c),
        !s.contains(c) ==> split_from(s, c, cur).last() == cur + s,
    decreases s.len(),
{
    if s.len() == 0 {
        assert(cur + s =~= cur);
    } else {
        let rest = s.drop_first();
        assert(s =~= seq![s[0]] + rest);
        lemma_after_last_concat(seq![s[0]], rest, c);
        assert(s.contains(c) == (s[0] == c || rest.contains(c))) by {
            if s.contains(c) {
                let k = choose|k: int| 0 <= k < s.len() && s[k] == c;
                if k > 0 {
                    assert(rest[k - 1] == c);
                }
            }
            if rest.contains(c) {
                let k = choose|k: int| 0 <= k < rest.len() && rest[k] == c;
                assert(s[k + 1] == c);
            }
        }
        if s[0] == c {
            lemma_split_from_last(rest, c, Seq::empty());
            assert(after_last(seq![s[0]], c) =~= Seq::<char>::empty()) by {
                assert(seq![s[0]].last() == c);
            }
            assert(Seq::<char>::empty() + rest =~= rest);
        } else {
            lemma_split_from_last(rest, c, cur.push(s[0]));
            assert(cur.push(s[0]) + rest =~= cur + s);
            if !rest.contains(c) {
                assert(seq![s[0]].drop_last() =~= Seq::<char>::empty());
                assert(after_last(Seq::<char>::empty(), c) =~= Seq::<char>::empty());
            }
        }
    }
}

/// The last piece of `s.split(c)` is the text after the last `c` (all of `s` when there is
/// none): what `after_last` states is what `split(..).last()` gives.
pub proof fn lemma_last_piece_is_after_last(s: Seq<char>, c: char)
    ensures
        split_spec(s, c).len() > 0,
        split_spec(s, c).last() == after_last(s, c),
{
    lemma_split_from_last(s, c, Seq::empty());
    if !s.contains(c) {
        lemma_after_last_concat(Seq::empty(), s, c);
        assert(Seq::<char>::empty() + s =~= s);
        assert(after_last(Seq::<char>::empty(), c) =~= Seq::<char>::empty());
    }
}

/// Trimming text that is already trimmed leaves it unchanged.
pub proof fn lemma_trim_idempotent(s: Seq<char>)
    ensures
        trim_spec(trim_spec(s)) == trim_spec(s),
{
    let a = trim_start_spec(s);
    lemma_trim_start_shape(s);
    lemma_trim_end_shape(a);
    let b = trim_end_spec(a);
    if b.len() > 0 {
        assert(b[0] == a[0]);
    }
    assert(trim_start_spec(b) == b);
    lemma_trim_end_shape(b);
}

/// What `trim_start_spec` leaves starts with a non-white character, if with anything.
proof fn lemma_trim_start_shape(s: Seq<char>)
    ensures
        trim_start_spec(s).len() > 0 ==> !is_white(trim_start_spec(s)[0]),
    decreases s.len(),
{
    if s.len() > 0 && is_white(s[0]) {
        lemma_trim_start_shape(s.drop_first());
    }
}

/// What `trim_end_spec` leaves is a prefix of its input that ends with a non-white
/// character, if with anything, and keeps a non-white first character; it is unchanged by
/// a second trim.
proof fn lemma_trim_end_shape(s: Seq<char>)
    ensures
        trim_end_spec(s).len() <= s.len(),
        trim_end_spec(s) == s.take(trim_end_spec(s).len() as int),
        trim_end_spec(s).len() > 0 ==> !is_white(trim_end_spec(s).last()),
        s.len() > 0 && !is_white(s[0]) ==> trim_end_spec(s).len() > 0,
        trim_end_spec(trim_end_spec(s)) == trim_end_spec(s),
    decreases s.len(),
{
    if s.len() > 0 && is_white(s.last()) {
        lemma_trim_end_shape(s.drop_last());
        let t = trim_end_spec(s.drop_last());
        assert(s.drop_last().take(t.len() as int) =~= s.take(t.len() as int));
        if s.len() == 1 {
            assert(s[0] == s.last());
        }
    } else {
        assert(s.take(s.len() as int) =~= s);
    }
}

/// Lowercasing works character by character, so it distributes over concatenation.
pub proof fn lemma_lower_concat(a: Seq<char>, b: Seq<char>)
    ensures
        lower_spec(a + b) == lower_spec(a) + lower_spec(b),
    decreases b.len(),
{
    if b.len() == 0 {
        assert(a + b =~= a);
        assert(lower_spec(a) + lower_spec(b) =~= lower_spec(a));
    } else {
        assert((a + b).drop_last() =~= a + b.drop_last());
        assert((a + b).last() == b.last());
        lemma_lower_concat(a, b.drop_last());
        assert(lower_spec(a) + lower_spec(b) =~= lower_spec(a) + lower_spec(b.drop_last())
            + lowercase_of(b.last()));
    }
}

/// Text placed between two others occurs right after the first.
pub proof fn lemma_occurs_in_middle(a: Seq<char>, b: Seq<char>, c: Seq<char>)
    ensures
        occurs_at(a + b + c, b, a.len() as int),
{
    assert((a + b + c).subrange(a.len() as int, (a.len() + b.len()) as int) =~= b);
}

/// Lowercased text holds the lowercase form of every text it held.
pub proof fn lemma_lower_keeps_occurrences(s: Seq<char>, pat: Seq<char>)
    requires
        contains_spec(s, pat),
    ensures
        contains_spec(lower_spec(s), lower_spec(pat)),
{
    let i = choose|i: int| occurs_at(s, pat, i);
    let pre = s.take(i);
    let post = s.skip(i + pat.len());
    assert(s == pre + pat + post) by {
        assert(s =~= pre + pat + post);
    }
    assert(lower_spec(s) == lower_spec(pre) + lower_spec(pat) + lower_spec(post)) by {
        lemma_lower_concat(pre + pat, post);
        lemma_lower_concat(pre, pat);
    }
    lemma_occurs_in_middle(lower_spec(pre), lower_spec(pat), lower_spec(post));
}

/// `s` has no character `c`, checked from the front.
pub open spec fn lacks_char(s: Seq<char>, c: char) -> bool
    decreases s.len(),
{
    s.len() == 0 || (s[0] != c && lacks_char(s.drop_first(), c))
}

/// `lacks_char` means that no index holds `c`.
pub proof fn lemma_lacks_char(s: Seq<char>, c: char)
    requires
        lacks_char(s, c),
    ensures
        forall|k: int| 0 <= k < s.len() ==> s[k] != c,
    decreases s.len(),
{
    if s.len() > 0 {
        lemma_lacks_char(s.drop_first(), c);
        assert forall|k: int| 0 <= k < s.len() implies s[k] != c by {
            if k > 0 {
                assert(s[k] == s.drop_first()[k - 1]);
            }
        }
    }
}

/// When no occurrence of `pat` starts inside `a`, replacing in `a + b` keeps `a` and
/// replaces in `b`.
pub proof fn lemma_replace_skips_prefix(a: Seq<char>, b: Seq<char>, pat: Seq<char>, rep: Seq<char>)
    requires
        pat.len() > 0,
        forall|i: int| 0 <= i < a.len() ==> !occurs_at(a + b, pat, i),
    ensures
        replace_spec(a + b, pat, rep) == a + replace_spec(b, pat, rep),
    decreases a.len(),
{
    if a.len() == 0 {
        assert(a + b =~= b);
        assert(a + replace_spec(b, pat, rep) =~= replace_spec(b, pat, rep));
    } else {
        let s = a + b;
        assert(!occurs_at(s, pat, 0));
        assert(s.drop_first() =~= a.drop_first() + b);
        assert forall|i: int| 0 <= i < a.drop_first().len() implies !occurs_at(
            a.drop_first() + b,
            pat,
            i,
        ) by {
            if occurs_at(a.drop_first() + b, pat, i) {
                assert((a.drop_first() + b).subrange(i, i + pat.len()) =~= s.subrange(
                    i + 1,
                    i + 1 + pat.len(),
                ));
                assert(occurs_at(s, pat, i + 1));
            }
        }
        lemma_replace_skips_prefix(a.drop_first(), b, pat, rep);
        assert(seq![s[0]] + (a.drop_first() + replace_spec(b, pat, rep)) =~= a + replace_spec(
            b,
            pat,
            rep,
        ));
    }
}

/// Text without any occurrence of `pat` is left as it is by replacing `pat`.
pub proof fn lemma_replace_absent(s: Seq<char>, pat: Seq<char>, rep: Seq<char>)
    requires
        pat.len() > 0,
        !contains_spec(s, pat),
    ensures
        replace_spec(s, pat, rep) == s,
{
    assert(s + Seq::<char>::empty() =~= s);
    lemma_replace_skips_prefix(s, Seq::empty(), pat, rep);
    assert(s + Seq::<char>::empty() =~= s);
}

/// A pattern without spaces, absent from `x`, does not start inside `x` in `x + rest` when
/// `rest` starts with a space.
pub proof fn lemma_no_match_before_space(x: Seq<char>, rest: Seq<char>, pat: Seq<char>)
    requires
        pat.len() > 0,
        !contains_spec(x, pat),
        rest.len() > 0,
        rest[0] == ' ',
        forall|k: int| 0 <= k < pat.len() ==> pat[k] != ' ',
    ensures
        forall|i: int| 0 <= i < x.len() ==> !occurs_at(x + rest, pat, i),
{
    assert forall|i: int| 0 <= i < x.len() implies !occurs_at(x + rest, pat, i) by {
        if occurs_at(x + rest, pat, i) {
            if i + pat.len() <= x.len() {
                assert((x + rest).subrange(i, i + pat.len()) =~= x.subrange(i, i + pat.len()));
                assert(occurs_at(x, pat, i));
            } else {
                let k = x.len() - i;
                assert((x + rest).subrange(i, i + pat.len())[k] == (x + rest)[x.len() as int]);
                assert(pat[k] == ' ');
            }
        }
    }
}

/// What trimming leaves of `x` followed by white space is what it leaves of `x`.
pub proof fn lemma_trim_white_suffix(x: Seq<char>, w: Seq<char>)
    requires
        forall|k: int| 0 <= k < w.len() ==> is_white(w[k]),
    ensures
        trim_spec(x + w) == trim_spec(x),
    decreases x.len(),
{
    if x.len() > 0 && is_white(x[0]) {
        assert((x + w).drop_first() =~= x.drop_first() + w);
        lemma_trim_white_suffix(x.drop_first(), w);
    } else if x.len() == 0 {
        assert(x + w =~= w);
        lemma_trim_start_all_white(w);
    } else {
        assert(trim_start_spec(x + w) == x + w);
        lemma_trim_end_white_suffix(x, w);
    }
}

/// Text made only of white space trims to nothing.
proof fn lemma_trim_start_all_white(w: Seq<char>)
    requires
        forall|k: int| 0 <= k < w.len() ==> is_white(w[k]),
    ensures
        trim_start_spec(w) == Seq::<char>::empty(),
    decreases w.len(),
{
    if w.len() > 0 {
        lemma_trim_start_all_white(w.drop_first());
    }
}

/// Trimming the end of `x` followed by white space trims the end of `x`.
proof fn lemma_trim_end_white_suffix(x: Seq<char>, w: Seq<char>)
    requires
        forall|k: int| 0 <= k < w.len() ==> is_white(w[k]),
    ensures
        trim_end_spec(x + w) == trim_end_spec(x),
    decreases w.len(),
{
    if w.len() == 0 {
        assert(x + w =~= x);
    } else {
        assert((x + w).drop_last() =~= x + w.drop_last());
        assert((x + w).last() == w[w.len() - 1]);
        lemma_trim_end_white_suffix(x, w.drop_last());
    }
}

/// Replacing every `c` by nothing leaves no `c`, and keeps every other character.
pub proof fn lemma_remove_char(s: Seq<char>, c: char)
    ensures
        !replace_spec(s, seq![c], Seq::empty()).contains(c),
        forall|x: char| x != c && s.contains(x) ==> #[trigger] replace_spec(s, seq![c], Seq::empty()).contains(x),
    decreases s.len(),
{
    if s.len() > 0 {
        let pat = seq![c];
        lemma_remove_char(s.drop_first(), c);
        assert(s.skip(1) =~= s.drop_first());
        let rest = replace_spec(s.drop_first(), pat, Seq::empty());
        let r = replace_spec(s, pat, Seq::empty());
        if s[0] == c {
            assert(s.subrange(0, 1) =~= pat);
            assert(r == Seq::<char>::empty() + rest);
            assert(Seq::<char>::empty() + rest =~= rest);
        } else {
            assert(s.subrange(0, 1) != pat) by {
                assert(s.subrange(0, 1)[0] == s[0]);
            }
            assert(r == seq![s[0]] + rest);
            if r.contains(c) {
                let k = choose|k: int| 0 <= k < r.len() && r[k] == c;
                if k > 0 {
                    assert(rest[k - 1] == c);
                }
            }
        }
        assert forall|x: char| x != c && s.contains(x) implies #[trigger] r.contains(x) by {
            let k = choose|k: int| 0 <= k < s.len() && s[k] == x;
            if k == 0 {
                assert(r[0] == x);
            } else {
                assert(s.drop_first()[k - 1] == x);
                assert(s.drop_first().contains(x));
                assert(rest.contains(x));
                let j = choose|j: int| 0 <= j < rest.len() && rest[j] == x;
                if s[0] == c {
                    assert(r[j] == x);
                } else {
                    assert(r[j + 1] == x);
                }
            }
        }
    }
}

} // verus!








