use vstd::prelude::*;
use crate::entry::{entry_views, EntryModel, M3U8Entry};
use crate::text::{char_views, lines_of, split_lines, string_of};
use crate::urlset::UrlSet;

verus! {

/// `s` begins with `p`.
pub open spec fn starts_with(s: Seq<char>, p: Seq<char>) -> bool {
    p.len() <= s.len() && s.take(p.len() as int) == p
}

/// The prefix that marks a description line.
pub open spec fn description_marker() -> Seq<char> {
    seq!['#', 'E', 'X', 'T', 'I', 'N', 'F', ':']
}

/// The prefix that a URL line may not carry.
pub open spec fn rejected_scheme() -> Seq<char> {
    seq!['h', 't', 't', 'p', 's', ':', '/', '/']
}

/// A line that may stand as the URL of an entry.
pub open spec fn accepts_url(l: Seq<char>) -> bool {
    l.len() > 0 && !starts_with(l, rejected_scheme())
}

/// Lines `i` and `i + 1` form a description/URL pair.
pub open spec fn pair_at(lines: Seq<Seq<char>>, i: int) -> bool {
    &&& 0 <= i
    &&& i + 1 < lines.len()
    &&& starts_with(lines[i], description_marker())
    &&& accepts_url(lines[i + 1])
}

/// The description/URL pairs from line `i` on, before deduplication: a
/// pair consumes two lines, any other line one.
pub open spec fn candidates(lines: Seq<Seq<char>>, i: int) -> Seq<EntryModel>
    decreases lines.len() - i,
{
    if i < 0 || i >= lines.len() {
        Seq::empty()
    } else if pair_at(lines, i) {
        seq![(lines[i], lines[i + 1])] + candidates(lines, i + 2)
    } else {
        candidates(lines, i + 1)
    }
}

/// The scan of the lines from line `i` on against the URLs already `seen`:
/// the entries it emits and the URLs seen afterwards.
pub open spec fn scan(lines: Seq<Seq<char>>, i: int, seen: Seq<Seq<char>>) -> (Seq<EntryModel>, Seq<Seq<char>>)
    decreases lines.len() - i,
{
    if i < 0 || i >= lines.len() {
        (Seq::empty(), seen)
    } else if pair_at(lines, i) {
        let url = lines[i + 1];
        if seen.contains(url) {
            scan(lines, i + 2, seen)
        } else {
            let (es, fin) = scan(lines, i + 2, seen.push(url));
            (seq![(lines[i], url)] + es, fin)
        }
    } else {
        scan(lines, i + 1, seen)
    }
}

/// Whether the line begins with the characters of `p`.
pub fn has_prefix(line: &Vec<char>, p: &Vec<char>) -> (r: bool)
    ensures
        r == starts_with(line@, p@),
{
    if p.len() > line.len() {
        return false;
    }
    let mut i: usize = 0;
    while i < p.len()
        invariant
            p@.len() <= line@.len(),
            i <= p@.len(),
            forall|j: int| 0 <= j < i ==> line@[j] == p@[j],
        decreases p.len() - i,
    {
        if line[i] != p[i] {
            assert(line@.take(p@.len() as int)[i as int] != p@[i as int]);
            return false;
        }
        i += 1;
    }
    assert(line@.take(p@.len() as int) =~= p@);
    true
}

/// Extracts the new entries from a playlist's lines, recording their URLs
/// in `unique_set`.
pub fn parse_lines(lines: &Vec<Vec<char>>, unique_set: &mut UrlSet) -> (r: Vec<M3U8Entry>)
    requires
        old(unique_set).wf(),
    ensures
        final(unique_set).wf(),
        entry_views(r@) == scan(char_views(lines@), 0, old(unique_set)@).0,
        final(unique_set)@ == scan(char_views(lines@), 0, old(unique_set)@).1,
{
    let ghost ls = char_views(lines@);
    let ghost seen0 = unique_set@;
    let marker = vec!['#', 'E', 'X', 'T', 'I', 'N', 'F', ':'];
    let scheme = vec!['h', 't', 't', 'p', 's', ':', '/', '/'];
    assert(marker@ =~= description_marker());
    assert(scheme@ =~= rejected_scheme());
    let mut entries: Vec<M3U8Entry> = Vec::new();
    let mut i: usize = 0;
    while i < lines.len()
        invariant
            ls == char_views(lines@),
            marker@ == description_marker(),
            scheme@ == rejected_scheme(),
            i <= lines@.len(),
            unique_set.wf(),
            entry_views(entries@) + scan(ls, i as int, unique_set@).0 == scan(ls, 0, seen0).0,
            scan(ls, i as int, unique_set@).1 == scan(ls, 0, seen0).1,
        decreases lines.len() - i,
    {
        if has_prefix(&lines[i], &marker) && i + 1 < lines.len() && lines[i + 1].len() > 0
            && !has_prefix(&lines[i + 1], &scheme) {
            assert(pair_at(ls, i as int));
            let description = string_of(lines[i].as_slice());
            let url = string_of(lines[i + 1].as_slice());
            let ghost before = unique_set@;
            if unique_set.insert(url.clone()) {
                let ghost prev = entries@;
                let e = M3U8Entry { description, url };
                entries.push(e);
                assert(entry_views(entries@) =~= entry_views(prev).push(e@));
                assert(entry_views(entries@) + scan(ls, i + 2, unique_set@).0 =~= entry_views(prev)
                    + scan(ls, i as int, before).0);
            }
            i += 2;
        } else {
            i += 1;
        }
    }
    assert(entry_views(entries@) =~= scan(ls, 0, seen0).0);
    entries
}

/// Extracts the new entries from the text of one playlist file, recording
/// their URLs in `unique_set`: a line that begins with `#EXTINF:` and the
/// non-empty line after it form an entry, unless that line begins with
/// `https://`; an entry whose URL was seen before is left out.
pub fn parse_m3u8_file(content: &str, unique_set: &mut UrlSet) -> (r: Vec<M3U8Entry>)
    requires
        old(unique_set).wf(),
    ensures
        final(unique_set).wf(),
        entry_views(r@) == scan(lines_of(content@), 0, old(unique_set)@).0,
        final(unique_set)@ == scan(lines_of(content@), 0, old(unique_set)@).1,
{
    let lines = split_lines(content);
    parse_lines(&lines, unique_set)
}

} // verus!
