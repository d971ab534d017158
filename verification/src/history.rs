//! The recording history: the MP4 files in the output folder, newest first.

use vstd::prelude::*;

use crate::text::{lemma_text_less_irreflexive, lemma_text_less_total, lemma_text_less_transitive, text_less, text_lt};

verus! {

/// How many recordings the history shows.
pub const HISTORY_LEN: usize = 30;

/// A file found in the output folder.
pub struct RecordingEntry {
    pub path: String,
    pub file_name: String,
    pub size_bytes: u64,
    /// Modification time as "YYYY-MM-DD HH:MM", or empty when unknown.
    pub modified: String,
}

/// Whether a file name's extension (the text after its last '.', when that dot is
/// not the first character) is "mp4": the name ends in ".mp4" after at least one
/// more character.
pub open spec fn is_mp4_name(name: Seq<char>) -> bool {
    name.len() >= 5 && name.subrange(name.len() - 4, name.len() as int) == ".mp4"@
}

pub fn is_mp4_file_name(name: &str) -> (b: bool)
    ensures
        b == is_mp4_name(name@),
{
    proof {
        reveal_strlit(".mp4");
    }
    let n = name.unicode_len();
    if n < 5 {
        return false;
    }
    let b = name.get_char(n - 4) == '.' && name.get_char(n - 3) == 'm' && name.get_char(n - 2) == 'p'
        && name.get_char(n - 1) == '4';
    assert(b ==> name@.subrange(n - 4, n as int) =~= ".mp4"@);
    assert(name@.subrange(n - 4, n as int) == ".mp4"@ ==> name@.subrange(n - 4, n as int)[0] == '.'
        && name@.subrange(n - 4, n as int)[1] == 'm' && name@.subrange(n - 4, n as int)[2] == 'p'
        && name@.subrange(n - 4, n as int)[3] == '4');
    b
}

pub open spec fn mp4_pred() -> spec_fn(RecordingEntry) -> bool {
    |e: RecordingEntry| is_mp4_name(e.file_name@)
}

/// `a` was modified no earlier than `b`.
pub open spec fn newer_or_same(a: RecordingEntry, b: RecordingEntry) -> bool {
    !text_less(a.modified@, b.modified@)
}

/// Entries in order of modification time, newest first.
pub open spec fn newest_first(s: Seq<RecordingEntry>) -> bool {
    forall|i: int, j: int| 0 <= i < j < s.len() ==> newer_or_same(#[trigger] s[i], #[trigger] s[j])
}

pub open spec fn modified_is(k: Seq<char>) -> spec_fn(RecordingEntry) -> bool {
    |e: RecordingEntry| e.modified@ == k
}

/// `out` is `inp` sorted newest first, entries with the same time keeping their order
/// (a stable sort): sorted, and for every time the entries with that time are the
/// same, in the same order, in both.
pub open spec fn newest_first_of(out: Seq<RecordingEntry>, inp: Seq<RecordingEntry>) -> bool {
    &&& newest_first(out)
    &&& forall|k: Seq<char>| #[trigger] out.filter(modified_is(k)) == inp.filter(modified_is(k))
}

proof fn lemma_filter_push<A>(s: Seq<A>, x: A, p: spec_fn(A) -> bool)
    ensures
        s.push(x).filter(p) == (if p(x) { s.filter(p).push(x) } else { s.filter(p) }),
{
    reveal(Seq::filter);
    assert(s.push(x).drop_last() =~= s);
}

proof fn lemma_filter_none<A>(s: Seq<A>, p: spec_fn(A) -> bool)
    requires
        forall|i: int| 0 <= i < s.len() ==> !p(#[trigger] s[i]),
    ensures
        s.filter(p) == Seq::<A>::empty(),
    decreases s.len(),
{
    reveal(Seq::filter);
    if s.len() > 0 {
        lemma_filter_none(s.drop_last(), p);
    }
}

proof fn lemma_filter_single<A>(x: A, p: spec_fn(A) -> bool)
    ensures
        seq![x].filter(p) == (if p(x) { seq![x] } else { Seq::<A>::empty() }),
{
    lemma_filter_push(Seq::<A>::empty(), x, p);
    reveal(Seq::filter);
    assert(Seq::<A>::empty().push(x) =~= seq![x]);
    assert(Seq::<A>::empty().filter(p) =~= Seq::<A>::empty());
}

/// Inserting `e` at `j` into a newest-first sequence keeps it newest first when
/// nothing before `j` is older than `e` and the entry at `j` is.
proof fn lemma_insert_keeps_order(out: Seq<RecordingEntry>, e: RecordingEntry, j: int)
    requires
        newest_first(out),
        0 <= j <= out.len(),
        forall|q: int| 0 <= q < j ==> !text_less(#[trigger] out[q].modified@, e.modified@),
        j < out.len() ==> text_less(out[j].modified@, e.modified@),
    ensures
        newest_first(out.insert(j, e)),
        forall|q: int| j <= q < out.len() ==> text_less(#[trigger] out[q].modified@, e.modified@),
{
    assert forall|q: int| j <= q < out.len() implies text_less(#[trigger] out[q].modified@, e.modified@) by {
        if q > j {
            assert(newer_or_same(out[j], out[q]));
            if out[q].modified@ != out[j].modified@ {
                lemma_text_less_total(out[q].modified@, out[j].modified@);
                lemma_text_less_transitive(out[q].modified@, out[j].modified@, e.modified@);
            }
        }
    }
    let s = out.insert(j, e);
    assert forall|a: int, b: int| 0 <= a < b < s.len() implies newer_or_same(#[trigger] s[a], #[trigger] s[b]) by {
        if a == j {
            // s[b] is out[b - 1], older than e
            lemma_text_less_irreflexive(e.modified@);
            if text_less(e.modified@, out[b - 1].modified@) {
                lemma_text_less_transitive(e.modified@, out[b - 1].modified@, e.modified@);
            }
        } else if b == j {
            assert(s[a] == out[a]);
        } else {
            let a0 = if a < j { a } else { a - 1 };
            let b0 = if b < j { b } else { b - 1 };
            assert(s[a] == out[a0] && s[b] == out[b0]);
        }
    }
}

/// Sort newest first, keeping entries with the same time in their order.
pub fn sort_newest_first(entries: Vec<RecordingEntry>) -> (out: Vec<RecordingEntry>)
    ensures
        newest_first_of(out@, entries@),
{
    let ghost inp = entries@;
    let n = entries.len();
    let mut rest = entries;
    let mut out: Vec<RecordingEntry> = Vec::new();
    let mut i: usize = 0;
    proof {
        assert forall|k: Seq<char>| #[trigger] out@.filter(modified_is(k)) == inp.take(0).filter(
            modified_is(k),
        ) by {
            reveal(Seq::filter);
            assert(inp.take(0) =~= Seq::<RecordingEntry>::empty());
        }
    }
    while i < n
        invariant
            n == inp.len(),
            i <= n,
            rest@ == inp.skip(i as int),
            newest_first(out@),
            forall|k: Seq<char>| #[trigger] out@.filter(modified_is(k)) == inp.take(i as int).filter(
                modified_is(k),
            ),
        decreases n - i,
    {
        let e = rest.remove(0);
        assert(e == inp[i as int]);
        let mut j: usize = 0;
        while j < out.len() && !text_lt(out[j].modified.as_str(), e.modified.as_str())
            invariant
                j <= out@.len(),
                forall|q: int| 0 <= q < j ==> !text_less(#[trigger] out@[q].modified@, e.modified@),
            decreases out@.len() - j,
        {
            j = j + 1;
        }
        let ghost old_out = out@;
        proof {
            lemma_insert_keeps_order(old_out, e, j as int);
        }
        out.insert(j, e);
        proof {
            let taken = inp.take(i + 1);
            assert(taken =~= inp.take(i as int).push(e));
            assert(old_out =~= old_out.subrange(0, j as int) + old_out.subrange(j as int, old_out.len() as int));
            assert(out@ =~= old_out.subrange(0, j as int) + seq![e] + old_out.subrange(
                j as int,
                old_out.len() as int,
            ));
            assert forall|k: Seq<char>| #[trigger] out@.filter(modified_is(k)) == taken.filter(modified_is(k)) by {
                let p = modified_is(k);
                let pre = old_out.subrange(0, j as int);
                let post = old_out.subrange(j as int, old_out.len() as int);
                Seq::filter_distributes_over_add(pre + seq![e], post, p);
                Seq::filter_distributes_over_add(pre, seq![e], p);
                Seq::filter_distributes_over_add(pre, post, p);
                lemma_filter_single(e, p);
                lemma_filter_push(inp.take(i as int), e, p);
                if p(e) {
                    assert forall|q: int| 0 <= q < post.len() implies !p(#[trigger] post[q]) by {
                        assert(post[q] == old_out[q + j]);
                        assert(text_less(old_out[q + j].modified@, e.modified@));
                        lemma_text_less_irreflexive(e.modified@);
                    }
                    lemma_filter_none(post, p);
                    assert(pre.filter(p) + seq![e] + Seq::<RecordingEntry>::empty() =~= (pre.filter(p)
                        + Seq::<RecordingEntry>::empty()).push(e));
                    assert(pre.filter(p) + Seq::<RecordingEntry>::empty() =~= pre.filter(p));
                } else {
                    assert(pre.filter(p) + Seq::<RecordingEntry>::empty() =~= pre.filter(p));
                }
            }
        }
        i = i + 1;
    }
    proof {
        assert(inp.take(n as int) =~= inp);
    }
    out
}

/// The entries whose file name has the extension "mp4", in their order.
pub fn mp4_entries(entries: Vec<RecordingEntry>) -> (out: Vec<RecordingEntry>)
    ensures
        out@ == entries@.filter(mp4_pred()),
{
    let ghost inp = entries@;
    let n = entries.len();
    let mut rest = entries;
    let mut out: Vec<RecordingEntry> = Vec::new();
    let mut i: usize = 0;
    proof {
        reveal(Seq::filter);
        assert(inp.take(0) =~= Seq::<RecordingEntry>::empty());
    }
    while i < n
        invariant
            n == inp.len(),
            i <= n,
            rest@ == inp.skip(i as int),
            out@ == inp.take(i as int).filter(mp4_pred()),
        decreases n - i,
    {
        let e = rest.remove(0);
        assert(e == inp[i as int]);
        proof {
            assert(inp.take(i + 1) =~= inp.take(i as int).push(e));
            lemma_filter_push(inp.take(i as int), e, mp4_pred());
        }
        if is_mp4_file_name(e.file_name.as_str()) {
            out.push(e);
        }
        i = i + 1;
    }
    proof {
        assert(inp.take(n as int) =~= inp);
    }
    out
}

/// The history: the MP4 files among `entries`, newest first (same times in their
/// order), at most `HISTORY_LEN` of them.
pub fn recent_recordings(entries: Vec<RecordingEntry>) -> (out: Vec<RecordingEntry>)
    ensures
        exists|sorted: Seq<RecordingEntry>|
            #![trigger newest_first_of(sorted, entries@.filter(mp4_pred()))]
            newest_first_of(sorted, entries@.filter(mp4_pred())) && out@ == (if sorted.len()
                > HISTORY_LEN {
                sorted.take(HISTORY_LEN as int)
            } else {
                sorted
            }),
{
    let kept = mp4_entries(entries);
    let mut sorted = sort_newest_first(kept);
    let ghost full = sorted@;
    sorted.truncate(HISTORY_LEN);
    assert(newest_first_of(full, entries@.filter(mp4_pred())));
    proof {
        if full.len() > HISTORY_LEN {
            assert(sorted@ =~= full.take(HISTORY_LEN as int));
        }
    }
    sorted
}


/// The history shows MP4 files only, newest first, at most `HISTORY_LEN` of them:
/// what holds of any result that `recent_recordings` may give for `entries`.
pub proof fn law_history_is_recent_mp4s(entries: Seq<RecordingEntry>, sorted: Seq<RecordingEntry>, out: Seq<
    RecordingEntry,
>)
    requires
        newest_first_of(sorted, entries.filter(mp4_pred())),
        out == (if sorted.len() > HISTORY_LEN {
            sorted.take(HISTORY_LEN as int)
        } else {
            sorted
        }),
    ensures
        out.len() <= HISTORY_LEN,
        newest_first(out),
        forall|i: int| 0 <= i < out.len() ==> is_mp4_name(#[trigger] out[i].file_name@),
{
    broadcast use vstd::seq_lib::group_filter_ensures;

    assert forall|i: int| 0 <= i < out.len() implies is_mp4_name(#[trigger] out[i].file_name@) by {
        let e = out[i];
        let p = modified_is(e.modified@);
        let kept = entries.filter(mp4_pred());
        // e is among the entries sorted with its time, so among the kept ones with it
        assert(sorted[i] == e && p(sorted[i]));
        assert(sorted.filter(p) == kept.filter(p));
        assert(kept.filter(p).contains(e));
        let m = choose|m: int| 0 <= m < kept.filter(p).len() && kept.filter(p)[m] == e;
        lemma_filter_subset(kept, p, m);
        let q = choose|q: int| 0 <= q < kept.len() && kept[q] == e;
        entries.lemma_filter_pred(mp4_pred(), q);
    }
}

/// An element of a filtered sequence is an element of the sequence.
proof fn lemma_filter_subset<A>(s: Seq<A>, p: spec_fn(A) -> bool, i: int)
    requires
        0 <= i < s.filter(p).len(),
    ensures
        s.contains(s.filter(p)[i]),
    decreases s.len(),
{
    reveal(Seq::filter);
    if s.len() > 0 {
        let sub = s.drop_last().filter(p);
        if i < sub.len() {
            lemma_filter_subset(s.drop_last(), p, i);
            let k = choose|k: int| 0 <= k < s.drop_last().len() && s.drop_last()[k] == sub[i];
            assert(s[k] == sub[i]);
        } else {
            assert(s[s.len() - 1] == s.filter(p)[i]);
        }
    }
}


proof fn lemma_filter_first<A>(s: Seq<A>, p: spec_fn(A) -> bool)
    requires
        s.len() > 0,
    ensures
        s.filter(p) == (if p(s[0]) { seq![s[0]] } else { Seq::<A>::empty() }) + s.drop_first().filter(p),
{
    assert(s =~= seq![s[0]] + s.drop_first());
    s.drop_first().lemma_filter_prepend(s[0], p);
}

/// Some entry of `s` has the time `k` when the entries with time `k` are not none.
proof fn lemma_time_present(s: Seq<RecordingEntry>, k: Seq<char>)
    requires
        s.filter(modified_is(k)).len() > 0,
    ensures
        exists|j: int| 0 <= j < s.len() && #[trigger] s[j].modified@ == k,
{
    let p = modified_is(k);
    s.lemma_filter_pred(p, 0);
    lemma_filter_subset(s, p, 0);
    let j = choose|j: int| 0 <= j < s.len() && s[j] == s.filter(p)[0];
    assert(s[j].modified@ == k);
}

/// In a newest-first sequence no entry is newer than the first.
proof fn lemma_first_is_newest(s: Seq<RecordingEntry>, k: Seq<char>)
    requires
        newest_first(s),
        s.len() > 0,
        s.filter(modified_is(k)).len() > 0,
    ensures
        !text_less(s[0].modified@, k),
{
    lemma_time_present(s, k);
    let j = choose|j: int| 0 <= j < s.len() && #[trigger] s[j].modified@ == k;
    if j > 0 {
        assert(newer_or_same(s[0], s[j]));
    } else {
        lemma_text_less_irreflexive(k);
    }
}

/// A stable newest-first order is unique: two newest-first sequences with the same
/// entries for every time, in the same order, are equal. (So the history is fully
/// determined by the files found.)
pub proof fn law_newest_first_is_unique(a: Seq<RecordingEntry>, b: Seq<RecordingEntry>)
    requires
        newest_first(a),
        newest_first(b),
        forall|k: Seq<char>| #[trigger] a.filter(modified_is(k)) == b.filter(modified_is(k)),
    ensures
        a == b,
    decreases a.len() + b.len(),
{
    if a.len() == 0 || b.len() == 0 {
        if a.len() > 0 {
            let k = a[0].modified@;
            lemma_filter_first(a, modified_is(k));
            lemma_filter_none(b, modified_is(k));
        } else if b.len() > 0 {
            let k = b[0].modified@;
            lemma_filter_first(b, modified_is(k));
            lemma_filter_none(a, modified_is(k));
        } else {
            assert(a =~= b);
        }
        return;
    }
    let ka = a[0].modified@;
    let kb = b[0].modified@;
    lemma_filter_first(a, modified_is(ka));
    lemma_filter_first(b, modified_is(kb));
    lemma_first_is_newest(a, kb);
    lemma_first_is_newest(b, ka);
    if ka != kb {
        lemma_text_less_total(ka, kb);
    }
    assert(ka == kb);
    lemma_filter_first(b, modified_is(ka));
    assert(a[0] == a.filter(modified_is(ka))[0]);
    assert(b[0] == b.filter(modified_is(ka))[0]);
    assert(a[0] == b[0]);
    let a1 = a.drop_first();
    let b1 = b.drop_first();
    assert forall|k: Seq<char>| #[trigger] a1.filter(modified_is(k)) == b1.filter(modified_is(k)) by {
        let p = modified_is(k);
        lemma_filter_first(a, p);
        lemma_filter_first(b, p);
        let head = if p(a[0]) { seq![a[0]] } else { Seq::<RecordingEntry>::empty() };
        assert(head + a1.filter(p) == head + b1.filter(p));
        assert(a1.filter(p) =~= (head + a1.filter(p)).skip(head.len() as int));
        assert(b1.filter(p) =~= (head + b1.filter(p)).skip(head.len() as int));
    }
    assert forall|i: int, j: int| 0 <= i < j < a1.len() implies newer_or_same(#[trigger] a1[i], #[trigger] a1[j]) by {
        assert(newer_or_same(a[i + 1], a[j + 1]));
    }
    assert forall|i: int, j: int| 0 <= i < j < b1.len() implies newer_or_same(#[trigger] b1[i], #[trigger] b1[j]) by {
        assert(newer_or_same(b[i + 1], b[j + 1]));
    }
    law_newest_first_is_unique(a1, b1);
    assert(a =~= seq![a[0]] + a1);
    assert(b =~= seq![b[0]] + b1);
}

} // verus!
