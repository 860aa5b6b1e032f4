use vstd::prelude::*;
use crate::entry::EntryModel;
use crate::probe::{probe_is_valid, rejected, written, ProbeOutcome};
use crate::parser::{accepts_url, candidates, description_marker, pair_at, rejected_scheme, scan, starts_with};

verus! {

/// The URLs of a sequence of entries.
pub open spec fn urls(es: Seq<EntryModel>) -> Seq<Seq<char>> {
    es.map_values(|e: EntryModel| e.1)
}

/// First-occurrence deduplication of candidate pairs against the URLs
/// already `seen`: a pair is kept when its URL is new, and its URL is then
/// seen.
pub open spec fn dedup(cs: Seq<EntryModel>, seen: Seq<Seq<char>>) -> Seq<EntryModel>
    decreases cs.len(),
{
    if cs.len() == 0 {
        Seq::empty()
    } else if seen.contains(cs[0].1) {
        dedup(cs.drop_first(), seen)
    } else {
        seq![cs[0]] + dedup(cs.drop_first(), seen.push(cs[0].1))
    }
}

proof fn lemma_scan_is_dedup(lines: Seq<Seq<char>>, i: int, seen: Seq<Seq<char>>)
    ensures
        scan(lines, i, seen).0 == dedup(candidates(lines, i), seen),
        scan(lines, i, seen).1 == seen + urls(scan(lines, i, seen).0),
    decreases lines.len() - i,
{
    if i < 0 || i >= lines.len() {
        assert(seen + urls(Seq::empty()) =~= seen);
    } else if pair_at(lines, i) {
        let c = (lines[i], lines[i + 1]);
        let rest = candidates(lines, i + 2);
        assert((seq![c] + rest)[0] == c);
        assert((seq![c] + rest).drop_first() =~= rest);
        let url = lines[i + 1];
        if seen.contains(url) {
            lemma_scan_is_dedup(lines, i + 2, seen);
        } else {
            lemma_scan_is_dedup(lines, i + 2, seen.push(url));
            let es = scan(lines, i + 2, seen.push(url)).0;
            assert(urls(seq![c] + es) =~= seq![url] + urls(es));
            assert(seen.push(url) + urls(es) =~= seen + (seq![url] + urls(es)));
        }
    } else {
        lemma_scan_is_dedup(lines, i + 1, seen);
    }
}

proof fn lemma_push_contains(s: Seq<Seq<char>>, x: Seq<char>, y: Seq<char>)
    ensures
        s.contains(x) ==> s.push(y).contains(x),
        s.push(y).contains(y),
        s.push(y).contains(x) ==> (s.contains(x) || x == y),
{
    if s.contains(x) {
        let m = choose|m: int| 0 <= m < s.len() && s[m] == x;
        assert(s.push(y)[m] == x);
    }
    assert(s.push(y)[s.len() as int] == y);
    if s.push(y).contains(x) && x != y {
        let m = choose|m: int| 0 <= m < s.len() + 1 && s.push(y)[m] == x;
        assert(s[m] == x);
    }
}

proof fn lemma_dedup_props(cs: Seq<EntryModel>, seen: Seq<Seq<char>>)
    ensures
        forall|k: int| 0 <= k < dedup(cs, seen).len() ==> !seen.contains(#[trigger] dedup(cs, seen)[k].1),
        forall|j: int, k: int|
            0 <= j < k < dedup(cs, seen).len() ==> dedup(cs, seen)[j].1 != dedup(cs, seen)[k].1,
        forall|j: int|
            0 <= j < cs.len() && !seen.contains(#[trigger] cs[j].1) ==> urls(dedup(cs, seen)).contains(cs[j].1),
        forall|k: int|
            0 <= k < dedup(cs, seen).len() ==> exists|j: int|
                0 <= j < cs.len() && cs[j] == #[trigger] dedup(cs, seen)[k] && forall|j2: int|
                    0 <= j2 < j ==> cs[j2].1 != dedup(cs, seen)[k].1,
    decreases cs.len(),
{
    let out = dedup(cs, seen);
    if cs.len() == 0 {
    } else {
        let c0 = cs[0];
        let rest = cs.drop_first();
        if seen.contains(c0.1) {
            lemma_dedup_props(rest, seen);
            assert(out == dedup(rest, seen));
            assert forall|j: int| 0 <= j < cs.len() && !seen.contains(#[trigger] cs[j].1) implies urls(
                out,
            ).contains(cs[j].1) by {
                assert(cs[j] == rest[j - 1]);
            }
            assert forall|k: int| 0 <= k < out.len() implies exists|j: int|
                0 <= j < cs.len() && cs[j] == #[trigger] out[k] && forall|j2: int|
                    0 <= j2 < j ==> cs[j2].1 != out[k].1 by {
                assert(out[k] == dedup(rest, seen)[k]);
                let j1 = choose|j: int|
                    0 <= j < rest.len() && rest[j] == out[k] && forall|j2: int|
                        0 <= j2 < j ==> rest[j2].1 != out[k].1;
                assert(cs[j1 + 1] == out[k]);
                assert forall|j2: int| 0 <= j2 < j1 + 1 implies cs[j2].1 != out[k].1 by {
                    if j2 > 0 {
                        assert(cs[j2] == rest[j2 - 1]);
                    }
                }
            }
        } else {
            let seen2 = seen.push(c0.1);
            let out2 = dedup(rest, seen2);
            lemma_dedup_props(rest, seen2);
            assert(out == seq![c0] + out2);
            assert(seen2.contains(c0.1)) by {
                lemma_push_contains(seen, c0.1, c0.1);
            }
            assert forall|k: int| 0 <= k < out.len() implies !seen.contains(#[trigger] out[k].1) by {
                if k > 0 {
                    assert(out[k] == out2[k - 1]);
                    lemma_push_contains(seen, out[k].1, c0.1);
                }
            }
            assert forall|j: int, k: int| 0 <= j < k < out.len() implies out[j].1 != out[k].1 by {
                assert(out[k] == out2[k - 1]);
                if j > 0 {
                    assert(out[j] == out2[j - 1]);
                }
            }
            assert forall|j: int| 0 <= j < cs.len() && !seen.contains(#[trigger] cs[j].1) implies urls(
                out,
            ).contains(cs[j].1) by {
                if cs[j].1 == c0.1 {
                    assert(urls(out)[0] == c0.1);
                } else {
                    assert(cs[j] == rest[j - 1]);
                    lemma_push_contains(seen, cs[j].1, c0.1);
                    let m = choose|m: int| 0 <= m < urls(out2).len() && urls(out2)[m] == cs[j].1;
                    assert(urls(out)[m + 1] == cs[j].1);
                }
            }
            assert forall|k: int| 0 <= k < out.len() implies exists|j: int|
                0 <= j < cs.len() && cs[j] == #[trigger] out[k] && forall|j2: int|
                    0 <= j2 < j ==> cs[j2].1 != out[k].1 by {
                if k == 0 {
                    assert(cs[0] == out[0]);
                } else {
                    assert(out[k] == out2[k - 1]);
                    let j1 = choose|j: int|
                        0 <= j < rest.len() && rest[j] == out2[k - 1] && forall|j2: int|
                            0 <= j2 < j ==> rest[j2].1 != out2[k - 1].1;
                    assert(cs[j1 + 1] == out[k]);
                    assert forall|j2: int| 0 <= j2 < j1 + 1 implies cs[j2].1 != out[k].1 by {
                        if j2 > 0 {
                            assert(cs[j2] == rest[j2 - 1]);
                        } else {
                            assert(!seen2.contains(out2[k - 1].1));
                        }
                    }
                }
            }
        }
    }
}

/// Deduplication within a scan: the entries are the candidate pairs with
/// each URL not seen before kept once, at its first occurrence; no two
/// entries share a URL, none has a URL seen before, every new URL among the
/// candidates has its entry, and that entry is the first candidate with the
/// URL. The URLs seen afterwards are those seen before followed by the
/// entries' URLs.
pub proof fn lemma_dedup_invariant(lines: Seq<Seq<char>>, seen: Seq<Seq<char>>)
    ensures
        scan(lines, 0, seen).0 == dedup(candidates(lines, 0), seen),
        scan(lines, 0, seen).1 == seen + urls(scan(lines, 0, seen).0),
        forall|k: int|
            0 <= k < scan(lines, 0, seen).0.len() ==> !seen.contains(
                #[trigger] scan(lines, 0, seen).0[k].1,
            ),
        forall|j: int, k: int|
            0 <= j < k < scan(lines, 0, seen).0.len() ==> scan(lines, 0, seen).0[j].1 != scan(
                lines,
                0,
                seen,
            ).0[k].1,
        forall|j: int|
            0 <= j < candidates(lines, 0).len() && !seen.contains(#[trigger] candidates(lines, 0)[j].1)
                ==> urls(scan(lines, 0, seen).0).contains(candidates(lines, 0)[j].1),
        forall|k: int|
            0 <= k < scan(lines, 0, seen).0.len() ==> exists|j: int|
                0 <= j < candidates(lines, 0).len() && candidates(lines, 0)[j]
                    == #[trigger] scan(lines, 0, seen).0[k] && forall|j2: int|
                    0 <= j2 < j ==> candidates(lines, 0)[j2].1 != scan(lines, 0, seen).0[k].1,
{
    lemma_scan_is_dedup(lines, 0, seen);
    lemma_dedup_props(candidates(lines, 0), seen);
}

proof fn lemma_candidates_shape(lines: Seq<Seq<char>>, i: int)
    ensures
        forall|k: int|
            0 <= k < candidates(lines, i).len() ==> starts_with(
                (#[trigger] candidates(lines, i)[k]).0,
                description_marker(),
            ) && accepts_url(candidates(lines, i)[k].1),
    decreases lines.len() - i,
{
    if i < 0 || i >= lines.len() {
    } else if pair_at(lines, i) {
        lemma_candidates_shape(lines, i + 2);
        let rest = candidates(lines, i + 2);
        assert forall|k: int| 0 <= k < candidates(lines, i).len() implies starts_with(
            (#[trigger] candidates(lines, i)[k]).0,
            description_marker(),
        ) && accepts_url(candidates(lines, i)[k].1) by {
            if k > 0 {
                assert(candidates(lines, i)[k] == rest[k - 1]);
            } else {
                assert(candidates(lines, i)[0] == (lines[i], lines[i + 1]));
            }
        }
    } else {
        lemma_candidates_shape(lines, i + 1);
        assert(candidates(lines, i) == candidates(lines, i + 1));
    }
}

/// The acceptance rule: a description line followed by a non-empty line
/// that does not begin with `https://` yields exactly one candidate, made of
/// the two lines, and the scan resumes after them; followed by an empty
/// line, a line beginning with `https://`, or nothing, it yields none and
/// the scan resumes at the next line. Every candidate is such a pair.
pub proof fn lemma_acceptance_rule(lines: Seq<Seq<char>>, i: int)
    requires
        0 <= i < lines.len(),
        starts_with(lines[i], description_marker()),
    ensures
        i + 1 < lines.len() && lines[i + 1].len() > 0 && !starts_with(lines[i + 1], rejected_scheme())
            ==> candidates(lines, i) == seq![(lines[i], lines[i + 1])] + candidates(lines, i + 2),
        i + 1 >= lines.len() || lines[i + 1].len() == 0 || starts_with(lines[i + 1], rejected_scheme())
            ==> candidates(lines, i) == candidates(lines, i + 1),
        forall|k: int|
            0 <= k < candidates(lines, 0).len() ==> starts_with(
                (#[trigger] candidates(lines, 0)[k]).0,
                description_marker(),
            ) && candidates(lines, 0)[k].1.len() > 0 && !starts_with(
                candidates(lines, 0)[k].1,
                rejected_scheme(),
            ),
{
    lemma_candidates_shape(lines, 0);
    assert forall|k: int| 0 <= k < candidates(lines, 0).len() implies starts_with(
        (#[trigger] candidates(lines, 0)[k]).0,
        description_marker(),
    ) && candidates(lines, 0)[k].1.len() > 0 && !starts_with(
        candidates(lines, 0)[k].1,
        rejected_scheme(),
    ) by {
        assert(accepts_url(candidates(lines, 0)[k].1));
    }
}

/// Deduplication across files: when two files are parsed in turn against one
/// set of seen URLs, a URL new to the run that is a candidate of the first
/// file has its entry from the first file and none from the second, and no
/// URL has an entry from both.
pub proof fn lemma_dedup_across_files(
    first: Seq<Seq<char>>,
    second: Seq<Seq<char>>,
    seen: Seq<Seq<char>>,
    url: Seq<char>,
)
    requires
        urls(candidates(first, 0)).contains(url),
        !seen.contains(url),
    ensures
        urls(scan(first, 0, seen).0).contains(url),
        !urls(scan(second, 0, scan(first, 0, seen).1).0).contains(url),
        forall|j: int, k: int|
            0 <= j < scan(first, 0, seen).0.len() && 0 <= k < scan(
                second,
                0,
                scan(first, 0, seen).1,
            ).0.len() ==> #[trigger] scan(first, 0, seen).0[j].1 != #[trigger] scan(
                second,
                0,
                scan(first, 0, seen).1,
            ).0[k].1,
{
    let s1 = scan(first, 0, seen).1;
    let ea = scan(first, 0, seen).0;
    let eb = scan(second, 0, s1).0;
    lemma_dedup_invariant(first, seen);
    lemma_dedup_invariant(second, s1);
    let ja = choose|j: int| 0 <= j < urls(candidates(first, 0)).len() && urls(candidates(first, 0))[j] == url;
    assert(candidates(first, 0)[ja].1 == url);
    assert forall|j: int, k: int| 0 <= j < ea.len() && 0 <= k < eb.len() implies #[trigger] ea[j].1
        != #[trigger] eb[k].1 by {
        assert(s1[seen.len() + j] == ea[j].1);
        assert(!s1.contains(eb[k].1));
    }
    if urls(eb).contains(url) {
        let kb = choose|k: int| 0 <= k < urls(eb).len() && urls(eb)[k] == url;
        let ka = choose|k: int| 0 <= k < urls(ea).len() && urls(ea)[k] == url;
        assert(ea[ka].1 != eb[kb].1);
    }
}

/// Completeness under partial failure: over any run, every report is
/// either written or rejected, so when `n` of `m` probes fail exactly
/// `m - n` entries are written, in the order their reports arrived.
pub proof fn lemma_partial_failure(reports: Seq<(EntryModel, ProbeOutcome)>)
    ensures
        written(reports).len() + rejected(reports) == reports.len(),
        written(reports) == reports.filter(|r: (EntryModel, ProbeOutcome)| probe_is_valid(r.1)).map_values(
            |r: (EntryModel, ProbeOutcome)| r.0,
        ),
    decreases reports.len(),
{
    if reports.len() > 0 {
        let pre = reports.drop_last();
        lemma_partial_failure(pre);
        assert(reports == pre.push(reports.last()));
        reveal(Seq::filter);
        assert(reports.filter(|r: (EntryModel, ProbeOutcome)| probe_is_valid(r.1)) == {
            let f = pre.filter(|r: (EntryModel, ProbeOutcome)| probe_is_valid(r.1));
            if probe_is_valid(reports.last().1) {
                f.push(reports.last())
            } else {
                f
            }
        });
        assert(written(reports) =~= reports.filter(|r: (EntryModel, ProbeOutcome)| probe_is_valid(r.1)).map_values(
            |r: (EntryModel, ProbeOutcome)| r.0,
        ));
    } else {
        assert(written(reports) =~= reports.filter(|r: (EntryModel, ProbeOutcome)| probe_is_valid(r.1)).map_values(
            |r: (EntryModel, ProbeOutcome)| r.0,
        ));
    }
}

proof fn lemma_written_from_valid(reports: Seq<(EntryModel, ProbeOutcome)>)
    ensures
        forall|k: int|
            #![trigger written(reports)[k]]
            0 <= k < written(reports).len() ==> exists|j: int|
                0 <= j < reports.len() && #[trigger] reports[j].0 == written(reports)[k]
                    && probe_is_valid(reports[j].1),
    decreases reports.len(),
{
    if reports.len() > 0 {
        let pre = reports.drop_last();
        lemma_written_from_valid(pre);
        assert forall|k: int| #![trigger written(reports)[k]] 0 <= k < written(reports).len() implies exists|j: int|
            0 <= j < reports.len() && #[trigger] reports[j].0 == written(reports)[k]
                && probe_is_valid(reports[j].1) by {
            if k < written(pre).len() {
                assert(written(reports)[k] == written(pre)[k]);
                let j = choose|j: int|
                    0 <= j < pre.len() && pre[j].0 == written(pre)[k] && probe_is_valid(pre[j].1);
                assert(reports[j] == pre[j]);
            } else {
                assert(reports[reports.len() - 1].0 == written(reports)[k]);
            }
        }
    } else {
        assert(written(reports).len() == 0);
    }
}

/// The validation partition: over a run whose entries have distinct URLs,
/// an entry is written exactly when its probe returned a success or
/// redirection status; an entry whose probe returned another status, timed
/// out or failed in transport is not written.
pub proof fn lemma_validation_partition(reports: Seq<(EntryModel, ProbeOutcome)>)
    requires
        forall|j: int, k: int| 0 <= j < k < reports.len() ==> reports[j].0.1 != reports[k].0.1,
    ensures
        forall|k: int|
            0 <= k < reports.len() ==> (written(reports).contains(#[trigger] reports[k].0) <==> probe_is_valid(
                reports[k].1,
            )),
    decreases reports.len(),
{
    if reports.len() > 0 {
        let pre = reports.drop_last();
        let last = reports.last();
        lemma_validation_partition(pre);
        lemma_written_from_valid(pre);
        let w = written(pre);
        assert forall|k: int| 0 <= k < reports.len() implies (written(reports).contains(
            #[trigger] reports[k].0,
        ) <==> probe_is_valid(reports[k].1)) by {
            if k < reports.len() - 1 {
                assert(reports[k] == pre[k]);
                assert(reports[k].0 != last.0);
                if probe_is_valid(last.1) {
                    if w.push(last.0).contains(reports[k].0) {
                        let m = choose|m: int| 0 <= m < w.len() + 1 && w.push(last.0)[m] == reports[k].0;
                        assert(w[m] == reports[k].0);
                    }
                    if w.contains(reports[k].0) {
                        let m = choose|m: int| 0 <= m < w.len() && w[m] == reports[k].0;
                        assert(w.push(last.0)[m] == reports[k].0);
                    }
                }
            } else {
                if probe_is_valid(last.1) {
                    assert(w.push(last.0)[w.len() as int] == last.0);
                } else if w.contains(last.0) {
                    let m = choose|m: int| 0 <= m < w.len() && w[m] == last.0;
                    assert(w[m] == written(pre)[m]);
                    let j = choose|j: int| 0 <= j < pre.len() && pre[j].0 == w[m] && probe_is_valid(pre[j].1);
                    assert(reports[j] == pre[j]);
                }
            }
        }
    }
}

} // verus!
