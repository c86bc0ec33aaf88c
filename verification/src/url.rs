//! The path segments and query parameters of a request path.

use crate::text::{from_chars, split, split_chars, texts, to_chars};
use crate::text_map::{put, TextMap};
use vstd::prelude::*;

verus! {

/// A request path, taken apart.
#[derive(Debug, PartialEq, Eq)]
pub struct Url {
    pub parts: Vec<String>,
    pub query_parameters: TextMap,
}

/// A parsed path with its text as characters.
pub struct UrlView {
    pub parts: Seq<Seq<char>>,
    pub query_parameters: Seq<(Seq<char>, Seq<char>)>,
}

/// The texts of a sequence of strings.
pub open spec fn part_texts(parts: Seq<String>) -> Seq<Seq<char>> {
    parts.map_values(|p: String| p@)
}

impl View for Url {
    type V = UrlView;

    open spec fn view(&self) -> UrlView {
        UrlView {
            parts: part_texts(self.parts@),
            query_parameters: self.query_parameters.entries(),
        }
    }
}

/// The name of a path segment: what stands before its first `?`.
pub open spec fn segment_name(segment: Seq<char>) -> Seq<char> {
    split(segment, "?"@)[0]
}

/// The parameters after one more `key=value` pair; a pair that does not
/// have exactly one `=` is passed over.
pub open spec fn scan_pair(entries: Seq<(Seq<char>, Seq<char>)>, pair: Seq<char>) -> Seq<
    (Seq<char>, Seq<char>),
> {
    let sides = split(pair, "="@);
    if sides.len() == 2 {
        put(entries, sides[0], sides[1])
    } else {
        entries
    }
}

/// The parameters after a run of pairs.
pub open spec fn scan_pairs(entries: Seq<(Seq<char>, Seq<char>)>, pairs: Seq<Seq<char>>) -> Seq<
    (Seq<char>, Seq<char>),
>
    decreases pairs.len(),
{
    if pairs.len() == 0 {
        entries
    } else {
        scan_pair(scan_pairs(entries, pairs.drop_last()), pairs.last())
    }
}

/// The parameters after one more segment: those of the pairs, separated by
/// `&`, that follow its last `?`.
pub open spec fn scan_segment(entries: Seq<(Seq<char>, Seq<char>)>, segment: Seq<char>) -> Seq<
    (Seq<char>, Seq<char>),
> {
    let pieces = split(segment, "?"@);
    if pieces.len() > 1 {
        scan_pairs(entries, split(pieces.last(), "&"@))
    } else {
        entries
    }
}

/// The parameters of a run of segments.
pub open spec fn scan_segments(segments: Seq<Seq<char>>) -> Seq<(Seq<char>, Seq<char>)>
    decreases segments.len(),
{
    if segments.len() == 0 {
        Seq::empty()
    } else {
        scan_segment(scan_segments(segments.drop_last()), segments.last())
    }
}

/// The segments of a path: what its `/` separate, without what stands
/// before the first.
pub open spec fn segments_of(value: Seq<char>) -> Seq<Seq<char>> {
    split(value, "/"@).skip(1)
}

/// What a path parses to.
pub open spec fn parsed_url(value: Seq<char>) -> UrlView {
    UrlView {
        parts: segments_of(value).map_values(|s: Seq<char>| segment_name(s)),
        query_parameters: scan_segments(segments_of(value)),
    }
}

fn add_pairs(query: &mut TextMap, pairs: &Vec<Vec<char>>, equals: &Vec<char>)
    requires
        equals@ == "="@,
        equals.len() > 0,
    ensures
        final(query).entries() == scan_pairs(old(query).entries(), texts(pairs@)),
{
    let ghost start = query.entries();
    let ghost all = texts(pairs@);
    let mut i: usize = 0;
    assert(all.take(0) =~= Seq::empty());
    while i < pairs.len()
        invariant
            i <= pairs.len(),
            equals@ == "="@,
            equals.len() > 0,
            all == texts(pairs@),
            query.entries() == scan_pairs(start, all.take(i as int)),
        decreases pairs.len() - i,
    {
        proof {
            assert(all.take(i + 1).drop_last() =~= all.take(i as int));
            assert(all.take(i + 1).last() == pairs@[i as int]@);
        }
        let sides = split_chars(&pairs[i], equals);
        if sides.len() == 2 {
            assert(texts(sides@)[0] == sides@[0]@);
            assert(texts(sides@)[1] == sides@[1]@);
            query.insert(from_chars(&sides[0]), from_chars(&sides[1]));
        }
        i += 1;
    }
    assert(all.take(i as int) =~= all);
}

impl Url {
    /// Parses a path into its segments and its query parameters.
    pub fn parse(value: String) -> (url: Url)
        ensures
            url@ == parsed_url(value@),
    {
        proof {
            reveal_strlit("/");
            reveal_strlit("?");
            reveal_strlit("&");
            reveal_strlit("=");
        }
        let slash = to_chars("/");
        let mark = to_chars("?");
        let and = to_chars("&");
        let equals = to_chars("=");
        let chars = to_chars(value.as_str());
        let segments = split_chars(&chars, &slash);
        let ghost all = texts(segments@).skip(1);
        let mut parts: Vec<String> = Vec::new();
        let mut query_parameters = TextMap::new();
        let mut i: usize = 1;
        assert(all.take(0) =~= Seq::empty());
        assert(part_texts(parts@) =~= all.take(0).map_values(|s: Seq<char>| segment_name(s)));
        while i < segments.len()
            invariant
                1 <= i <= segments.len(),
                mark@ == "?"@,
                and@ == "&"@,
                equals@ == "="@,
                mark.len() > 0,
                and.len() > 0,
                equals.len() > 0,
                all == texts(segments@).skip(1),
                part_texts(parts@) == all.take(i - 1).map_values(|s: Seq<char>| segment_name(s)),
                query_parameters.entries() == scan_segments(all.take(i - 1)),
            decreases segments.len() - i,
        {
            proof {
                assert(all.take(i as int).drop_last() =~= all.take(i - 1));
                assert(all.take(i as int).last() == segments@[i as int]@);
            }
            let pieces = split_chars(&segments[i], &mark);
            assert(texts(pieces@)[0] == pieces@[0]@);
            let ghost before = parts@;
            let name = from_chars(&pieces[0]);
            parts.push(name);
            assert(part_texts(parts@) =~= all.take(i as int).map_values(
                |s: Seq<char>| segment_name(s),
            )) by {
                assert(part_texts(parts@) =~= part_texts(before).push(name@));
            }
            if pieces.len() > 1 {
                assert(texts(pieces@).last() == pieces@[pieces.len() - 1]@);
                let pairs = split_chars(&pieces[pieces.len() - 1], &and);
                add_pairs(&mut query_parameters, &pairs, &equals);
            }
            i += 1;
        }
        assert(all.take(i - 1) =~= all);
        Url { parts, query_parameters }
    }
}

} // verus!
