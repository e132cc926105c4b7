//! The decisions of the status command: which checkpoint to read, which
//! files are checkpoints, and what a checkpoint's report shows.

use vstd::prelude::*;
use crate::cli::migrate::checkpoint_path;
use crate::operations::checkpoint::Checkpoint;

verus! {

/// Where the status command looks.
pub enum StatusTarget {
    /// The checkpoint file at this path.
    File(String),
    /// Every checkpoint in the default directory.
    ListAll,
}

/// Chooses what the status command reads: an explicit checkpoint path
/// first, else the job's checkpoint file, else every checkpoint.
pub fn status_target(job_id: Option<String>, checkpoint: Option<String>) -> (r: StatusTarget)
    ensures
        checkpoint matches Some(p) ==> (r matches StatusTarget::File(q) && q@ == p@),
        checkpoint is None && job_id is Some ==> (r matches StatusTarget::File(q) && q@
            == ".basevn-migro/checkpoints/"@ + job_id->Some_0@ + ".json"@),
        checkpoint is None && job_id is None ==> r is ListAll,
{
    match checkpoint {
        Some(p) => StatusTarget::File(p),
        None => match job_id {
            Some(id) => StatusTarget::File(checkpoint_path(id.as_str())),
            None => StatusTarget::ListAll,
        },
    }
}

/// The extension of a file name, as `Path::extension` finds it: the text
/// after the last dot, unless the name has no dot or only a leading one.
pub open spec fn extension_of(name: Seq<char>) -> Option<Seq<char>> {
    if exists|i: int| 0 < i < name.len() && name[i] == '.' {
        let i = choose|i: int|
            0 < i < name.len() && name[i] == '.' && forall|j: int| i < j < name.len() ==> name[j] != '.';
        Some(name.subrange(i + 1, name.len() as int))
    } else {
        None
    }
}

/// A file holds a checkpoint when its name's extension is `json`.
pub fn is_checkpoint_file(file_name: &str) -> (b: bool)
    requires
        file_name@.len() < usize::MAX,
    ensures
        b == (extension_of(file_name@) == Some("json"@)),
{
    let ghost name = file_name@;
    let mut last_dot: Option<usize> = None;
    let mut i: usize = 0;
    for c in it: file_name.chars()
        invariant
            it.seq() == name,
            name.len() < usize::MAX,
            i == it.index(),
            match last_dot {
                Some(d) => 0 < d < i && name[d as int] == '.' && forall|j: int| d < j < i ==> name[j] != '.',
                None => forall|j: int| 0 < j < i ==> name[j] != '.',
            },
    {
        if c == '.' && i > 0 {
            last_dot = Some(i);
        }
        i = i + 1;
    }
    proof {
        reveal_strlit("json");
    }
    match last_dot {
        Some(d) => {
            assert(exists|k: int| 0 < k < name.len() && name[k] == '.') by {
                assert(name[d as int] == '.');
            }
            let ghost k = choose|k: int|
                0 < k < name.len() && name[k] == '.' && forall|j: int| k < j < name.len() ==> name[j] != '.';
            assert(k == d as int) by {
                if k < d as int {
                    assert(name[d as int] != '.');
                } else if k > d as int {
                    assert(name[k] != '.');
                }
            }
            let mut tail = String::new();
            let mut j: usize = 0;
            for c in it2: file_name.chars()
                invariant
                    it2.seq() == name,
                    name.len() < usize::MAX,
                    j == it2.index(),
                    d < name.len(),
                    j <= d + 1 ==> tail@.len() == 0,
                    j > d + 1 ==> tail@ == name.subrange(d + 1, j as int),
            {
                if j > d {
                    crate::data::text::push_char(&mut tail, c);
                    assert(tail@ =~= name.subrange(d + 1, j + 1));
                }
                j = j + 1;
            }
            let json = crate::data::text::owned("json");
            if j <= d + 1 {
                assert(name.subrange(d + 1, name.len() as int) =~= Seq::<char>::empty());
            }
            tail == json
        },
        None => false,
    }
}

/// What a checkpoint's report shows besides its counts: the first ten
/// failed record identifiers, how many more there are, and whether any
/// record failed.
pub struct CheckpointSummary {
    pub shown_ids: Vec<String>,
    pub more_ids: usize,
    pub has_failures: bool,
}

/// The number of failed identifiers that a report lists.
pub const DISPLAY_LIMIT: usize = 10;

/// Summarises a checkpoint for its report.
pub fn checkpoint_summary(checkpoint: &Checkpoint) -> (r: CheckpointSummary)
    ensures
        ({
            let ids = checkpoint.failed_record_ids@;
            let n = if ids.len() < DISPLAY_LIMIT {
                ids.len() as int
            } else {
                DISPLAY_LIMIT as int
            };
            &&& r.shown_ids@.len() == n
            &&& forall|i: int| 0 <= i < n ==> #[trigger] r.shown_ids@[i]@ == ids[i]@
            &&& r.more_ids == ids.len() - n
            &&& r.has_failures == (checkpoint.failed_count > 0)
        }),
{
    let ids = &checkpoint.failed_record_ids;
    let n = if ids.len() < DISPLAY_LIMIT {
        ids.len()
    } else {
        DISPLAY_LIMIT
    };
    let mut shown: Vec<String> = Vec::new();
    let mut i: usize = 0;
    while i < n
        invariant
            i <= n,
            n <= ids@.len(),
            shown@.len() == i,
            forall|j: int| 0 <= j < i ==> #[trigger] shown@[j]@ == ids@[j]@,
        decreases n - i,
    {
        shown.push(ids[i].clone());
        i = i + 1;
    }
    CheckpointSummary { shown_ids: shown, more_ids: ids.len() - n, has_failures: checkpoint.failed_count > 0 }
}

/// `a` comes before `b` in text order: the first differing character is
/// smaller in `a`, or `a` is a proper prefix of `b` (the order of `String`,
/// which compares code points).
pub open spec fn text_lt(a: Seq<char>, b: Seq<char>) -> bool
    decreases a.len(),
{
    if a.len() == 0 {
        b.len() > 0
    } else if b.len() == 0 {
        false
    } else if a[0] != b[0] {
        a[0] < b[0]
    } else {
        text_lt(a.drop_first(), b.drop_first())
    }
}

/// No text comes before itself.
pub proof fn lemma_text_lt_irreflexive(a: Seq<char>)
    ensures
        !text_lt(a, a),
    decreases a.len(),
{
    if a.len() > 0 {
        lemma_text_lt_irreflexive(a.drop_first());
    }
}

/// Text order is transitive.
pub proof fn lemma_text_lt_transitive(a: Seq<char>, b: Seq<char>, c: Seq<char>)
    requires
        text_lt(a, b),
        text_lt(b, c),
    ensures
        text_lt(a, c),
    decreases a.len(),
{
    if a.len() > 0 && b.len() > 0 && c.len() > 0 {
        if a[0] == b[0] && b[0] == c[0] {
            lemma_text_lt_transitive(a.drop_first(), b.drop_first(), c.drop_first());
        }
    }
}

/// Of two different texts, one comes before the other.
pub proof fn lemma_text_lt_total(a: Seq<char>, b: Seq<char>)
    requires
        a != b,
    ensures
        text_lt(a, b) || text_lt(b, a),
    decreases a.len(),
{
    if a.len() > 0 && b.len() > 0 && a[0] == b[0] {
        if a.drop_first() == b.drop_first() {
            assert(a.drop_first().len() == a.len() - 1);
            assert(b.drop_first().len() == b.len() - 1);
            assert(a.len() == b.len());
            assert forall|i: int| 0 <= i < a.len() implies a[i] == b[i] by {
                if i > 0 {
                    assert(a.drop_first()[i - 1] == a[i]);
                    assert(b.drop_first()[i - 1] == b[i]);
                }
            }
            assert(a =~= b);
        } else {
            lemma_text_lt_total(a.drop_first(), b.drop_first());
        }
    } else if a.len() == 0 && b.len() == 0 {
        assert(a =~= b);
    }
}

/// The characters of a text.
fn chars_of(s: &str) -> (r: Vec<char>)
    ensures
        r@ == s@,
{
    let mut out: Vec<char> = Vec::new();
    for c in it: s.chars()
        invariant
            it.seq() == s@,
            out@ == s@.take(it.index() as int),
    {
        let ghost k = it.index() as int;
        out.push(c);
        assert(out@ =~= s@.take(k + 1));
    }
    assert(s@.take(s@.len() as int) =~= s@);
    out
}

/// Whether `a` comes before `b` in text order.
pub fn text_less(a: &str, b: &str) -> (r: bool)
    ensures
        r == text_lt(a@, b@),
{
    let x = chars_of(a);
    let y = chars_of(b);
    assert(x@.skip(0) =~= x@);
    assert(y@.skip(0) =~= y@);
    let mut i: usize = 0;
    while i < x.len() && i < y.len()
        invariant
            i <= x@.len(),
            i <= y@.len(),
            x@ == a@,
            y@ == b@,
            text_lt(a@, b@) == text_lt(x@.skip(i as int), y@.skip(i as int)),
        decreases x@.len() - i,
    {
        assert(x@.skip(i as int)[0] == x@[i as int]);
        assert(y@.skip(i as int)[0] == y@[i as int]);
        if x[i] != y[i] {
            return x[i] < y[i];
        }
        assert(x@.skip(i as int).drop_first() =~= x@.skip(i + 1));
        assert(y@.skip(i as int).drop_first() =~= y@.skip(i + 1));
        i = i + 1;
    }
    assert(x@.skip(i as int).len() == x@.len() - i);
    assert(y@.skip(i as int).len() == y@.len() - i);
    x.len() - i == 0 && y.len() - i > 0
}

/// The timestamp of a listed checkpoint.
pub open spec fn stamp(e: (String, Checkpoint)) -> Seq<char> {
    e.1.timestamp@
}

/// No entry is older than a later one.
pub open spec fn newest_first_order(s: Seq<(String, Checkpoint)>) -> bool {
    forall|i: int, j: int| 0 <= i < j < s.len() ==> !text_lt(#[trigger] stamp(s[i]), #[trigger] stamp(s[j]))
}

/// `r` is `s` reordered: its `i`-th entry is the `perm[i]`-th of `s`, and
/// each entry of `s` is used once.
pub open spec fn reorders(s: Seq<(String, Checkpoint)>, r: Seq<(String, Checkpoint)>, perm: Seq<int>) -> bool {
    &&& perm.len() == r.len()
    &&& r.len() == s.len()
    &&& forall|i: int| 0 <= i < r.len() ==> 0 <= #[trigger] perm[i] < s.len() && r[i] == s[perm[i]]
    &&& forall|i: int, j: int| 0 <= i < j < r.len() ==> #[trigger] perm[i] != #[trigger] perm[j]
}

/// Entries with the same timestamp keep their order.
pub open spec fn ties_in_order(r: Seq<(String, Checkpoint)>, perm: Seq<int>) -> bool {
    forall|i: int, j: int|
        0 <= i < j < r.len() && stamp(r[i]) == stamp(r[j]) ==> #[trigger] perm[i] < #[trigger] perm[j]
}

/// Orders listed checkpoints by timestamp, newest first; entries with the
/// same timestamp keep their order.
pub fn newest_first(entries: Vec<(String, Checkpoint)>) -> (r: Vec<(String, Checkpoint)>)
    ensures
        r@.to_multiset() == entries@.to_multiset(),
        newest_first_order(r@),
        exists|perm: Seq<int>| reorders(entries@, r@, perm) && ties_in_order(r@, perm),
{
    let ghost all = entries@;
    let mut out: Vec<(String, Checkpoint)> = Vec::new();
    let ghost mut perm: Seq<int> = Seq::empty();
    assert(all.take(0) =~= out@);
    for e in it: entries
        invariant
            it.seq() == all,
            out@.to_multiset() == all.take(it.index() as int).to_multiset(),
            newest_first_order(out@),
            reorders(all.take(it.index() as int), out@, perm),
            ties_in_order(out@, perm),
            forall|i: int| 0 <= i < perm.len() ==> #[trigger] perm[i] < it.index(),
    {
        let ghost k = it.index() as int;
        let ghost before = out@;
        let ghost old_perm = perm;
        let mut p: usize = 0;
        while p < out.len() && !text_less(out[p].1.timestamp.as_str(), e.1.timestamp.as_str())
            invariant
                p <= out@.len(),
                out@ == before,
                forall|q: int| 0 <= q < p ==> !text_lt(#[trigger] stamp(out@[q]), stamp(e)),
            decreases out@.len() - p,
        {
            p = p + 1;
        }
        let ghost placed = e;
        out.insert(p, e);
        proof {
            assert(all[k] == placed);
            assert(all.take(k + 1) =~= all.take(k).push(placed));
            vstd::seq_lib::to_multiset_build(all.take(k), placed);
            vstd::seq_lib::to_multiset_insert(before, p as int, placed);
            perm = old_perm.insert(p as int, k);
            assert forall|i: int, j: int| 0 <= i < j < out@.len() implies !text_lt(
                #[trigger] stamp(out@[i]),
                #[trigger] stamp(out@[j]),
            ) by {
                if j < p {
                    assert(out@[i] == before[i] && out@[j] == before[j]);
                } else if j == p {
                    assert(out@[i] == before[i]);
                } else if i < p {
                    assert(out@[i] == before[i] && out@[j] == before[j - 1]);
                } else if i == p {
                    assert(out@[j] == before[j - 1]);
                    assert(text_lt(stamp(before[p as int]), stamp(placed)));
                    if text_lt(stamp(placed), stamp(before[j - 1])) {
                        if j - 1 == p {
                            lemma_text_lt_transitive(stamp(placed), stamp(before[p as int]), stamp(placed));
                            lemma_text_lt_irreflexive(stamp(placed));
                        } else {
                            lemma_text_lt_transitive(stamp(before[p as int]), stamp(placed), stamp(before[j - 1]));
                        }
                    }
                } else {
                    assert(out@[i] == before[i - 1] && out@[j] == before[j - 1]);
                }
            }
            assert forall|i: int| 0 <= i < out@.len() implies 0 <= #[trigger] perm[i] < all.take(k + 1).len()
                && out@[i] == all.take(k + 1)[perm[i]] by {
                if i < p {
                    assert(perm[i] == old_perm[i] && out@[i] == before[i]);
                } else if i > p {
                    assert(perm[i] == old_perm[i - 1] && out@[i] == before[i - 1]);
                }
            }
            assert forall|i: int, j: int| 0 <= i < j < out@.len() implies #[trigger] perm[i] != #[trigger] perm[j] by {
                if i < p && j < p {
                    assert(perm[i] == old_perm[i] && perm[j] == old_perm[j]);
                } else if i < p && j > p {
                    assert(perm[i] == old_perm[i] && perm[j] == old_perm[j - 1]);
                } else if i > p && j > p {
                    assert(perm[i] == old_perm[i - 1] && perm[j] == old_perm[j - 1]);
                } else if i == p {
                    assert(perm[j] == old_perm[j - 1]);
                } else {
                    assert(perm[i] == old_perm[i]);
                }
            }
            assert forall|i: int, j: int|
                0 <= i < j < out@.len() && stamp(out@[i]) == stamp(out@[j]) implies #[trigger] perm[i]
                < #[trigger] perm[j] by {
                if i < p && j < p {
                    assert(perm[i] == old_perm[i] && perm[j] == old_perm[j]);
                    assert(out@[i] == before[i] && out@[j] == before[j]);
                } else if i < p && j > p {
                    assert(perm[i] == old_perm[i] && perm[j] == old_perm[j - 1]);
                    assert(out@[i] == before[i] && out@[j] == before[j - 1]);
                } else if i > p && j > p {
                    assert(perm[i] == old_perm[i - 1] && perm[j] == old_perm[j - 1]);
                    assert(out@[i] == before[i - 1] && out@[j] == before[j - 1]);
                } else if j == p {
                    assert(perm[i] == old_perm[i]);
                } else {
                    assert(out@[j] == before[j - 1]);
                    assert(text_lt(stamp(before[p as int]), stamp(placed)));
                    if j - 1 == p {
                        lemma_text_lt_irreflexive(stamp(placed));
                    } else {
                        assert(!text_lt(stamp(before[p as int]), stamp(before[j - 1])));
                    }
                }
            }
            assert forall|i: int| 0 <= i < perm.len() implies #[trigger] perm[i] < k + 1 by {
                if i < p {
                    assert(perm[i] == old_perm[i]);
                } else if i > p {
                    assert(perm[i] == old_perm[i - 1]);
                }
            }
        }
    }
    assert(all.take(all.len() as int) =~= all);
    out
}

} // verus!
