//! Fitting a progress line into the terminal: by user-perceived characters (grapheme
//! clusters) or by display width.
use vstd::prelude::*;
use unicode_segmentation::UnicodeSegmentation;
use unicode_truncate::UnicodeTruncateStr;
use unicode_width::UnicodeWidthStr;

verus! {

/// The extended grapheme clusters of `s`, in order, as `unicode-segmentation` splits it.
pub uninterp spec fn grapheme_clusters(s: Seq<char>) -> Seq<Seq<char>>;

/// The pieces of `cs` put back together, in order.
pub open spec fn concat_all(cs: Seq<Seq<char>>) -> Seq<char>
    decreases cs.len(),
{
    if cs.len() == 0 {
        Seq::empty()
    } else {
        concat_all(cs.drop_last()) + cs.last()
    }
}

/// `UnicodeSegmentation::graphemes(s, true)`: the extended grapheme clusters of `s`, each
/// as its own string. The clusters are named; the one fact stated is that they are
/// consecutive slices of `s`, so that together they give `s` back.
#[verifier::external_body]
fn graphemes_of(s: &str) -> (r: Vec<String>)
    ensures
        r.deep_view() == grapheme_clusters(s@),
        concat_all(r.deep_view()) == s@,
{
    s.graphemes(true).map(|g| g.to_string()).collect()
}

/// Clusters of `parts` are appended to `acc` one by one, as long as `acc` holds fewer than
/// `cols` clusters before each one.
pub open spec fn fit_clusters_from(parts: Seq<Seq<char>>, acc: Seq<char>, cols: nat) -> Seq<char>
    decreases parts.len(),
{
    if parts.len() == 0 || grapheme_clusters(acc).len() >= cols {
        acc
    } else {
        fit_clusters_from(parts.drop_first(), acc + parts[0], cols)
    }
}

/// What is shown of `text` in `cols` columns, counted in grapheme clusters.
pub open spec fn fit_clusters(text: Seq<char>, cols: nat) -> Seq<char> {
    fit_clusters_from(grapheme_clusters(text), Seq::empty(), cols)
}

/// Builds the shown text cluster by cluster: the next cluster of `text` is appended while
/// the text built so far counts fewer than `cols` clusters.
pub fn truncate_graphemes(text: &str, cols: usize) -> (r: String)
    ensures
        r@ == fit_clusters(text@, cols as nat),
{
    let parts = graphemes_of(text);
    let ghost all = parts.deep_view();
    let mut acc = String::new();
    let mut i: usize = 0;
    let mut full = false;
    proof {
        assert(all.skip(0) =~= all);
    }
    while i < parts.len() && !full
        invariant
            all == parts.deep_view(),
            all == grapheme_clusters(text@),
            i <= parts.len(),
            fit_clusters(text@, cols as nat) == (if full {
                acc@
            } else {
                fit_clusters_from(all.skip(i as int), acc@, cols as nat)
            }),
        decreases parts.len() - i + (if full { 0int } else { 1int }),
    {
        let counted = graphemes_of(acc.as_str());
        if counted.len() >= cols {
            full = true;
        } else {
            proof {
                assert(all.skip(i as int).drop_first() =~= all.skip(i + 1));
                assert(all.skip(i as int)[0] == all[i as int]);
            }
            let ghost before = acc@;
            acc.append(parts[i].as_str());
            assert(acc@ == before + all[i as int]);
            i = i + 1;
        }
    }
    proof {
        if !full {
            assert(all.skip(i as int).len() == 0);
        }
    }
    acc
}

/// The display width of `s` in columns, as `unicode-width` measures a whole string (which
/// may join characters, as in the Arabic Lam-Alef ligature).
pub uninterp spec fn display_width(s: Seq<char>) -> nat;

/// `UnicodeWidthStr::width(s)` from `unicode-width`. The result is named, not stated.
#[verifier::external_body]
fn str_width(s: &str) -> (r: usize)
    ensures
        r as nat == display_width(s@),
{
    s.width()
}

/// The widths of the pieces of `cs`, measured one by one, added up.
pub open spec fn widths_sum(cs: Seq<Seq<char>>) -> nat
    decreases cs.len(),
{
    if cs.len() == 0 {
        0
    } else {
        widths_sum(cs.drop_last()) + display_width(cs.last())
    }
}

/// The first `k` clusters of `cs`, measured together, are as wide as their widths added up.
pub open spec fn prefix_adds_up(cs: Seq<Seq<char>>, k: int) -> bool {
    display_width(concat_all(cs.take(k))) == widths_sum(cs.take(k))
}

/// Every prefix of `s` made of whole grapheme clusters is as wide as its clusters' widths
/// added up. Truncating by width relies on this.
pub open spec fn widths_add_up(s: Seq<char>) -> bool {
    let cs = grapheme_clusters(s);
    forall|k: int| 0 <= k <= cs.len() ==> #[trigger] prefix_adds_up(cs, k)
}

proof fn lemma_take_one_more(cs: Seq<Seq<char>>, k: int)
    requires
        0 <= k < cs.len(),
    ensures
        concat_all(cs.take(k + 1)) == concat_all(cs.take(k)) + cs[k],
        widths_sum(cs.take(k + 1)) == widths_sum(cs.take(k)) + display_width(cs[k]),
{
    assert(cs.take(k + 1).drop_last() =~= cs.take(k));
    assert(cs.take(k + 1).last() == cs[k]);
}

/// Whether every prefix of `text` made of whole grapheme clusters is as wide as its
/// clusters' widths added up.
pub fn cluster_widths_add_up(text: &str) -> (r: bool)
    ensures
        r == widths_add_up(text@),
{
    let parts = graphemes_of(text);
    let ghost cs = parts.deep_view();
    let n = parts.len();
    let mut prefix = String::new();
    let mut sum: usize = 0;
    let mut k: usize = 0;
    proof {
        assert(cs.take(0) =~= Seq::<Seq<char>>::empty());
    }
    while k < n
        invariant
            cs == parts.deep_view(),
            cs == grapheme_clusters(text@),
            n == cs.len(),
            k <= n,
            prefix@ == concat_all(cs.take(k as int)),
            sum as nat == widths_sum(cs.take(k as int)),
            forall|j: int| 0 <= j < k ==> #[trigger] prefix_adds_up(cs, j),
        decreases n - k,
    {
        let w = str_width(prefix.as_str());
        if w != sum {
            assert(!prefix_adds_up(cs, k as int));
            return false;
        }
        assert(prefix_adds_up(cs, k as int));
        let cw = str_width(parts[k].as_str());
        proof {
            lemma_take_one_more(cs, k as int);
        }
        prefix.append(parts[k].as_str());
        match sum.checked_add(cw) {
            Some(t) => {
                sum = t;
            },
            None => {
                let w2 = str_width(prefix.as_str());
                assert(!prefix_adds_up(cs, k + 1));
                return false;
            },
        }
        k = k + 1;
    }
    let w = str_width(prefix.as_str());
    assert(cs.take(n as int) =~= cs);
    if w != sum {
        assert(!prefix_adds_up(cs, n as int));
        false
    } else {
        assert(prefix_adds_up(cs, n as int));
        assert forall|j: int| 0 <= j <= cs.len() implies #[trigger] prefix_adds_up(cs, j) by {
            if j < n {
            }
        }
        true
    }
}

/// The longest prefix of `s` whose display width is at most `max_width`, cut between
/// grapheme clusters, as `unicode-truncate` computes it.
pub uninterp spec fn width_truncated(s: Seq<char>, max_width: nat) -> Seq<char>;

/// `UnicodeTruncateStr::unicode_truncate(s, max_width).0`. The result is named; the one fact
/// stated is the one its source shows at a glance: it is a slice `..byte_index` of `s`,
/// hence a prefix.
/// It is called only where every whole-cluster prefix of `s` is as wide as its clusters'
/// widths added up: the crate checks that equality with a debug assertion, which fails for
/// ligatures such as the Arabic Lam-Alef.
#[verifier::external_body]
fn unicode_truncated(s: &str, max_width: usize) -> (r: String)
    requires
        widths_add_up(s@),
    ensures
        r@ == width_truncated(s@, max_width as nat),
        r@.len() <= s@.len(),
        r@ == s@.subrange(0, r@.len() as int),
{
    s.unicode_truncate(max_width).0.to_string()
}

/// What is shown of `text` in `cols` columns of display width: its longest prefix, cut
/// between grapheme clusters, that fits. Only for text whose clusters' widths add up.
pub fn fit_width(text: &str, cols: usize) -> (r: String)
    requires
        widths_add_up(text@),
    ensures
        r@ == width_truncated(text@, cols as nat),
        r@.len() <= text@.len(),
        r@ == text@.subrange(0, r@.len() as int),
{
    unicode_truncated(text, cols)
}

/// What is shown of `text` in `cols` columns of display width, or `None` when some
/// whole-cluster prefix of `text` is not as wide as its clusters' widths added up (there the
/// width cut is not made).
pub fn fit_width_checked(text: &str, cols: usize) -> (r: Option<String>)
    ensures
        r is None <==> !widths_add_up(text@),
        r matches Some(t) ==> t@ == width_truncated(text@, cols as nat) && t@.len() <= text@.len()
            && t@ == text@.subrange(0, t@.len() as int),
{
    if cluster_widths_add_up(text) {
        Some(fit_width(text, cols))
    } else {
        None
    }
}

} // verus!
