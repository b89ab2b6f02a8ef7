//! The candidate commits: those of the current repository whose author time
//! is later than the template's baseline.
use vstd::prelude::*;

use crate::commit::{commit_views, views_of, Commit, CommitView};
use crate::text::{chars_of, push_char, string_of, trim_seq, trim_bounds};
use crate::timestamp::{later, parse_rfc3339, rfc3339_instant, Timestamp};

verus! {

/// One commit record as the hosting service lists it; a field it lacks is
/// `None`.
#[derive(Debug, PartialEq, Eq)]
pub struct CommitRecord {
    pub sha: Option<String>,
    pub message: Option<String>,
    pub author_date: Option<String>,
    pub author_name: Option<String>,
}

/// Why the candidate commits could not be listed.
#[derive(Clone, Copy, Debug, PartialEq, Eq, Structural)]
pub enum CollectionError {
    /// The listing could not be fetched.
    UpstreamUnavailable,
    /// The listing is not a list of records.
    MalformedResponse,
}

/// `s` cut at each `sep`; there is always at least one piece.
pub open spec fn split_on(s: Seq<char>, sep: char) -> Seq<Seq<char>>
    decreases s.len(),
{
    if s.len() == 0 {
        seq![Seq::empty()]
    } else {
        let p = split_on(s.drop_last(), sep);
        if s.last() == sep {
            p.push(Seq::empty())
        } else {
            p.update(p.len() - 1, p.last().push(s.last()))
        }
    }
}

/// The first line of a message: the text before the first line feed, without
/// the carriage return of a `\r\n` ending.
pub open spec fn first_line(s: Seq<char>) -> Seq<char> {
    let pieces = split_on(s, '\n');
    let p = pieces[0];
    if pieces.len() > 1 && p.len() > 0 && p.last() == '\r' {
        p.drop_last()
    } else {
        p
    }
}

/// The non-empty items of `s`, in order.
pub open spec fn non_empty(s: Seq<Seq<char>>) -> Seq<Seq<char>>
    decreases s.len(),
{
    if s.len() == 0 {
        Seq::empty()
    } else if s.last().len() > 0 {
        non_empty(s.drop_last()).push(s.last())
    } else {
        non_empty(s.drop_last())
    }
}

/// The paths in a listing of one path per line: each line trimmed, blank
/// lines left out.
pub open spec fn file_list_of(s: Seq<char>) -> Seq<Seq<char>> {
    non_empty(split_on(s, '\n').map_values(|p: Seq<char>| trim_seq(p, false)))
}

proof fn lemma_split_len(s: Seq<char>, sep: char)
    ensures
        split_on(s, sep).len() >= 1,
    decreases s.len(),
{
    if s.len() > 0 {
        lemma_split_len(s.drop_last(), sep);
    }
}

/// `s` cut at each `sep`.
pub fn split_text(s: &str, sep: char) -> (r: Vec<String>)
    ensures
        r@.map_values(|x: String| x@) == split_on(s@, sep),
{
    let v = chars_of(s);
    let mut pieces: Vec<String> = Vec::new();
    let mut start: usize = 0;
    let mut i: usize = 0;
    assert(v@.take(0) =~= Seq::<char>::empty());
    assert(pieces@.map_values(|x: String| x@).push(v@.subrange(0, 0)) =~= seq![Seq::<char>::empty()]);
    while i < v.len()
        invariant
            start <= i <= v.len(),
            v@ == s@,
            forall|k: int| start <= k < i ==> v@[k] != sep,
            split_on(v@.take(i as int), sep) == pieces@.map_values(|x: String| x@).push(
                v@.subrange(start as int, i as int),
            ),
        decreases v.len() - i,
    {
        assert(v@.take(i + 1).drop_last() =~= v@.take(i as int));
        if v[i] == sep {
            let piece = string_of(&v, start, i);
            pieces.push(piece);
            assert(pieces@.map_values(|x: String| x@) =~= split_on(v@.take(i as int), sep));
            assert(v@.subrange(i + 1, i + 1) =~= Seq::<char>::empty());
            start = i + 1;
        } else {
            assert(v@.subrange(start as int, i + 1) =~= v@.subrange(start as int, i as int).push(
                v@[i as int],
            ));
            assert(split_on(v@.take(i + 1), sep) =~= pieces@.map_values(|x: String| x@).push(
                v@.subrange(start as int, i + 1),
            ));
        }
        i = i + 1;
    }
    let last = string_of(&v, start, v.len());
    pieces.push(last);
    assert(v@.take(v.len() as int) =~= v@);
    assert(pieces@.map_values(|x: String| x@) =~= split_on(s@, sep));
    pieces
}

/// The paths in `output`, one per line: each line trimmed, blank lines left
/// out.
pub fn parse_file_list(output: &str) -> (r: Vec<String>)
    ensures
        views_of(r@) == file_list_of(output@),
{
    let lines = split_text(output, '\n');
    let ghost trimmed = lines@.map_values(|x: String| x@).map_values(|p: Seq<char>| trim_seq(p, false));
    let mut r: Vec<String> = Vec::new();
    for i in 0..lines.len()
        invariant
            trimmed == lines@.map_values(|x: String| x@).map_values(|p: Seq<char>| trim_seq(p, false)),
            views_of(r@) == non_empty(trimmed.take(i as int)),
    {
        let v = chars_of(lines[i].as_str());
        let (lo, hi) = trim_bounds(&v, false);
        assert(trimmed.take(i + 1).drop_last() =~= trimmed.take(i as int));
        let ghost before = r@;
        if lo < hi {
            r.push(string_of(&v, lo, hi));
            assert(views_of(r@) =~= views_of(before).push(trimmed[i as int]));
        }
    }
    assert(trimmed.take(lines.len() as int) =~= trimmed);
    r
}

/// The first line of `message`.
pub fn first_line_of(message: &str) -> (r: String)
    ensures
        r@ == first_line(message@),
{
    let pieces = split_text(message, '\n');
    proof {
        lemma_split_len(message@, '\n');
    }
    let first = chars_of(pieces[0].as_str());
    if pieces.len() > 1 && first.len() > 0 && first[first.len() - 1] == '\r' {
        string_of(&first, 0, first.len() - 1)
    } else {
        string_of(&first, 0, first.len())
    }
}

/// The short form of a commit identifier: its first seven characters.
pub open spec fn short_hash_of(sha: Seq<char>) -> Seq<char> {
    if sha.len() > 7 {
        sha.take(7)
    } else {
        sha
    }
}

/// The author time of a record, where it has a readable one.
pub open spec fn record_instant(rec: CommitRecord) -> Option<(int, int, int)> {
    match rec.author_date {
        Some(d) => rfc3339_instant(d@),
        None => None,
    }
}

/// The author times of the records, each where it has a readable one.
pub open spec fn instants_of(records: Seq<CommitRecord>) -> Seq<Option<(int, int, int)>> {
    records.map_values(|rec: CommitRecord| record_instant(rec))
}

/// The views of a sequence of optional instants.
pub open spec fn instant_views(s: Seq<Option<Timestamp>>) -> Seq<Option<(int, int, int)>> {
    s.map_values(
        |o: Option<Timestamp>|
            match o {
                Some(t) => Some(t@),
                None => None,
            },
    )
}

/// A record, whose author time reads `t`, has what a candidate needs and was
/// authored after `baseline`.
pub open spec fn is_candidate(
    rec: CommitRecord,
    t: Option<(int, int, int)>,
    baseline: (int, int, int),
) -> bool {
    &&& rec.sha is Some
    &&& rec.message is Some
    &&& t matches Some(t)
    &&& later(t, baseline)
}

/// The commit that a candidate record with author time `t` gives, before its
/// paths are known.
pub open spec fn candidate_view(rec: CommitRecord, t: Option<(int, int, int)>) -> CommitView {
    CommitView {
        hash: rec.sha->0@,
        short_hash: short_hash_of(rec.sha->0@),
        message: first_line(rec.message->0@),
        files: Seq::empty(),
        author: match rec.author_name {
            Some(n) => n@,
            None => "Unknown"@,
        },
        timestamp: t->0,
    }
}

/// The candidates among `records`, in the order listed, where `instants`
/// gives each record's author time.
pub open spec fn candidates_given(
    records: Seq<CommitRecord>,
    instants: Seq<Option<(int, int, int)>>,
    baseline: (int, int, int),
) -> Seq<CommitView>
    decreases records.len(),
{
    if records.len() == 0 {
        Seq::empty()
    } else {
        let rest = candidates_given(records.drop_last(), instants.drop_last(), baseline);
        let t = instants[records.len() - 1];
        if is_candidate(records.last(), t, baseline) {
            rest.push(candidate_view(records.last(), t))
        } else {
            rest
        }
    }
}

/// The candidates among `records`, in the order listed.
pub open spec fn candidates_of(records: Seq<CommitRecord>, baseline: (int, int, int)) -> Seq<CommitView> {
    candidates_given(records, instants_of(records), baseline)
}

/// Every candidate was authored strictly after the baseline.
pub proof fn lemma_candidates_after_baseline(
    records: Seq<CommitRecord>,
    instants: Seq<Option<(int, int, int)>>,
    baseline: (int, int, int),
)
    ensures
        forall|i: int|
            0 <= i < candidates_given(records, instants, baseline).len() ==> later(
                #[trigger] candidates_given(records, instants, baseline)[i].timestamp,
                baseline,
            ),
    decreases records.len(),
{
    if records.len() > 0 {
        lemma_candidates_after_baseline(records.drop_last(), instants.drop_last(), baseline);
        let rest = candidates_given(records.drop_last(), instants.drop_last(), baseline);
        let t = instants[records.len() - 1];
        if is_candidate(records.last(), t, baseline) {
            assert forall|i: int| 0 <= i < rest.len() + 1 implies later(
                #[trigger] rest.push(candidate_view(records.last(), t))[i].timestamp,
                baseline,
            ) by {
                if i < rest.len() {
                    assert(later(rest[i].timestamp, baseline));
                }
            }
        }
    }
}

fn short_hash(sha: &str) -> (r: String)
    ensures
        r@ == short_hash_of(sha@),
{
    let v = chars_of(sha);
    if v.len() > 7 {
        string_of(&v, 0, 7)
    } else {
        string_of(&v, 0, v.len())
    }
}

/// The commit for a candidate record, with no paths yet.
fn candidate(sha: &String, message: &String, author: &Option<String>, t: Timestamp) -> (r: Commit)
    ensures
        r@.hash == sha@,
        r@.short_hash == short_hash_of(sha@),
        r@.message == first_line(message@),
        r@.files == Seq::<Seq<char>>::empty(),
        r@.author == (match author {
            Some(n) => n@,
            None => "Unknown"@,
        }),
        r@.timestamp == t@,
{
    let author = match author {
        Some(n) => n.clone(),
        None => "Unknown".to_owned(),
    };
    let files: Vec<String> = Vec::new();
    assert(views_of(files@) =~= Seq::<Seq<char>>::empty());
    Commit {
        hash: sha.clone(),
        short_hash: short_hash(sha.as_str()),
        message: first_line_of(message.as_str()),
        files,
        author,
        timestamp: t,
    }
}

/// `s` with `x` placed after the last item that is not later than it.
pub open spec fn insert_by_time(s: Seq<CommitView>, x: CommitView) -> Seq<CommitView>
    decreases s.len(),
{
    if s.len() > 0 && later(s.last().timestamp, x.timestamp) {
        insert_by_time(s.drop_last(), x).push(s.last())
    } else {
        s.push(x)
    }
}

/// `s` ordered by author time, oldest first; commits of the same time keep
/// their order.
pub open spec fn by_time(s: Seq<CommitView>) -> Seq<CommitView>
    decreases s.len(),
{
    if s.len() == 0 {
        Seq::empty()
    } else {
        insert_by_time(by_time(s.drop_last()), s.last())
    }
}

/// No commit of `s` comes before one that it is later than.
pub open spec fn ordered_by_time(s: Seq<CommitView>) -> bool {
    forall|i: int, j: int| 0 <= i < j < s.len() ==> !later(s[i].timestamp, s[j].timestamp)
}

proof fn lemma_insert_at(s: Seq<CommitView>, x: CommitView, j: int)
    requires
        0 <= j <= s.len(),
        forall|k: int| j <= k < s.len() ==> later(#[trigger] s[k].timestamp, x.timestamp),
        j == 0 || !later(s[j - 1].timestamp, x.timestamp),
    ensures
        insert_by_time(s, x) == s.insert(j, x),
    decreases s.len(),
{
    if s.len() > j {
        lemma_insert_at(s.drop_last(), x, j);
        assert(s.insert(j, x) =~= s.drop_last().insert(j, x).push(s.last()));
    } else {
        assert(s.insert(j, x) =~= s.push(x));
    }
}

proof fn lemma_insert_keeps_order(s: Seq<CommitView>, x: CommitView)
    requires
        ordered_by_time(s),
    ensures
        ordered_by_time(insert_by_time(s, x)),
        insert_by_time(s, x).to_multiset() == s.to_multiset().insert(x),
    decreases s.len(),
{
    broadcast use vstd::seq_lib::group_to_multiset_ensures;

    if s.len() > 0 && later(s.last().timestamp, x.timestamp) {
        let s0 = s.drop_last();
        assert(s0.push(s.last()) =~= s);
        assert(ordered_by_time(s0));
        lemma_insert_keeps_order(s0, x);
        let t = insert_by_time(s0, x);
        let r = t.push(s.last());
        assert forall|i: int, j: int| 0 <= i < j < r.len() implies !later(r[i].timestamp, r[j].timestamp) by {
            if j == r.len() - 1 && i < t.len() {
                assert(t.contains(t[i]));
                assert(t.to_multiset().count(t[i]) > 0);
                if t[i] != x {
                    assert(s0.to_multiset().count(t[i]) > 0);
                    assert(s0.contains(t[i]));
                    let k = choose|k: int| 0 <= k < s0.len() && s0[k] == t[i];
                    assert(s[k] == t[i]);
                }
            }
        }
        assert(r.to_multiset() =~= s.to_multiset().insert(x));
    } else {
        let r = s.push(x);
        assert forall|i: int, j: int| 0 <= i < j < r.len() implies !later(r[i].timestamp, r[j].timestamp) by {
            if j == r.len() - 1 && i < s.len() - 1 {
                assert(!later(s[i].timestamp, s.last().timestamp));
            }
        }
    }
}

/// `by_time` orders its input, oldest first, and keeps every commit.
pub proof fn lemma_by_time_orders(s: Seq<CommitView>)
    ensures
        ordered_by_time(by_time(s)),
        by_time(s).to_multiset() == s.to_multiset(),
    decreases s.len(),
{
    broadcast use vstd::seq_lib::group_to_multiset_ensures;

    if s.len() > 0 {
        lemma_by_time_orders(s.drop_last());
        lemma_insert_keeps_order(by_time(s.drop_last()), s.last());
        assert(s.drop_last().push(s.last()) =~= s);
    }
}

/// Places `c` after the last commit of `v` that is not later than it.
fn insert_in_order(v: &mut Vec<Commit>, c: Commit)
    ensures
        commit_views(final(v)@) == insert_by_time(commit_views(old(v)@), c@),
{
    let ghost s = commit_views(v@);
    let mut j: usize = v.len();
    while j > 0 && v[j - 1].timestamp.is_after(&c.timestamp)
        invariant
            j <= v.len(),
            s == commit_views(v@),
            forall|k: int| j <= k < s.len() ==> later(#[trigger] s[k].timestamp, c@.timestamp),
        decreases j,
    {
        j = j - 1;
    }
    proof {
        lemma_insert_at(s, c@, j as int);
    }
    v.insert(j, c);
    assert(commit_views(v@) =~= s.insert(j as int, c@));
}

/// The candidate commits among `records`, where `instants` gives the author
/// time that each record's date reads, if any: those with an identifier, a
/// message and an author time later than `baseline`, oldest first (records of
/// the same time in the order listed), each with its message cut to the first
/// line and no paths yet.
pub fn select_candidates(
    records: &Vec<CommitRecord>,
    instants: &Vec<Option<Timestamp>>,
    baseline: &Timestamp,
) -> (r: Vec<Commit>)
    requires
        instants.len() == records.len(),
    ensures
        commit_views(r@) == by_time(candidates_given(records@, instant_views(instants@), baseline@)),
{
    let ghost iv = instant_views(instants@);
    let mut r: Vec<Commit> = Vec::new();
    for i in 0..records.len()
        invariant
            instants.len() == records.len(),
            iv == instant_views(instants@),
            commit_views(r@) == by_time(
                candidates_given(records@.take(i as int), iv.take(i as int), baseline@),
            ),
    {
        assert(records@.take(i + 1).drop_last() =~= records@.take(i as int));
        assert(iv.take(i + 1).drop_last() =~= iv.take(i as int));
        let rec = &records[i];
        let ghost t = iv[i as int];
        if let (Some(sha), Some(message), Some(ts)) = (&rec.sha, &rec.message, &instants[i]) {
            if ts.is_after(baseline) {
                let c = candidate(sha, message, &rec.author_name, *ts);
                assert(c@ == candidate_view(*rec, t));
                insert_in_order(&mut r, c);
                let ghost p = candidates_given(records@.take(i as int), iv.take(i as int), baseline@);
                assert(p.push(c@).drop_last() =~= p);
            }
        }
    }
    assert(records@.take(records.len() as int) =~= records@);
    assert(iv.take(records.len() as int) =~= iv);
    r
}

/// The candidate commits among the listed records: those with an identifier,
/// a message and a readable author time later than `baseline`, oldest first
/// (records of the same time in the order listed), each with its message cut
/// to the first line and no paths yet. Records that lack a field are left
/// out; a listing that is not a list of records at all is refused.
pub fn collect_candidates(listing: Option<&Vec<CommitRecord>>, baseline: &Timestamp) -> (r: Result<
    Vec<Commit>,
    CollectionError,
>)
    ensures
        listing is None ==> r == Err::<Vec<Commit>, CollectionError>(CollectionError::MalformedResponse),
        listing matches Some(recs) ==> (r matches Ok(cs) && commit_views(cs@) == by_time(
            candidates_of(recs@, baseline@),
        )),
{
    let records = match listing {
        None => return Err(CollectionError::MalformedResponse),
        Some(records) => records,
    };
    let mut instants: Vec<Option<Timestamp>> = Vec::new();
    for i in 0..records.len()
        invariant
            instant_views(instants@) == instants_of(records@.take(i as int)),
    {
        let t = match &records[i].author_date {
            Some(d) => parse_rfc3339(d.as_str()),
            None => None,
        };
        let ghost tv = match t {
            Some(x) => Some(x@),
            None => None,
        };
        assert(tv == record_instant(records@[i as int]));
        let ghost before = instants@;
        instants.push(t);
        assert(instant_views(instants@) =~= instant_views(before).push(tv));
        assert(instants_of(records@.take(i + 1)) =~= instants_of(records@.take(i as int)).push(
            record_instant(records@[i as int]),
        ));
    }
    assert(records@.take(records.len() as int) =~= records@);
    Ok(select_candidates(records, &instants, baseline))
}

} // verus!
