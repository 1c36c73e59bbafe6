//! Request paths, route templates, and the matching of one against the other.

use crate::helper::{join_with, lemma_split_on_join, split_on};
use crate::text::{chars_of, slice_text};
use crate::text_map::{has_key, keys_distinct, lemma_put, put, to_map, Entry, TextMap};
use vstd::prelude::*;
use vstd::std_specs::cmp::PartialEqSpecImpl;
use vstd::std_specs::convert::FromSpecImpl;
use vstd::string::*;

verus! {

/// The path of a request: the text as it came, and its segments.
#[derive(Debug)]
pub struct HttpPath {
    pub path: String,
    pub path_segments: Vec<HttpPathSegment>,
}

/// One segment of a request path.
#[derive(Debug)]
pub struct HttpPathSegment(pub String);

/// The path of a route: the text it was made from, and its segments.
pub struct RouteMappingPath {
    pub path: String,
    pub path_segments: Vec<RouteMappingPathSegment>,
}

/// One segment of a route: a text that the request must repeat, or the name
/// of a variable that takes whatever the request has in that place.
#[derive(Debug)]
pub enum RouteMappingPathSegment {
    Constant(String),
    Variable(String),
}

/// What comparing a route with a request path gives.
#[derive(Debug)]
pub enum PathCompareResult {
    NotMatching,
    Matching,
    MatchingWithVariables(TextMap),
}

/// A segment of a route, as text.
pub enum SegmentPattern {
    Constant(Seq<char>),
    Variable(Seq<char>),
}

/// The outcome of a comparison, with the variables as a mapping.
pub enum MatchOutcome {
    NotMatching,
    Matching,
    MatchingWithVariables(Map<Seq<char>, Seq<char>>),
}

/// The pieces that are not empty, in order.
pub open spec fn non_empty<T>(pieces: Seq<Seq<T>>) -> Seq<Seq<T>> {
    pieces.filter(|piece: Seq<T>| piece.len() > 0)
}

/// The segments of the path `p`: the non-empty texts between its `/`.
pub open spec fn segments_of(p: Seq<char>) -> Seq<Seq<char>> {
    non_empty(split_on(p, '/'))
}

/// `s` without its first and its last character; nothing where it has no more
/// than two.
pub open spec fn without_edges(s: Seq<char>) -> Seq<char> {
    if s.len() <= 2 {
        Seq::empty()
    } else {
        s.subrange(1, s.len() - 1)
    }
}

/// What a segment of a route's text stands for: a variable where it begins
/// with `{` and ends with `}`, named by what is between them; else itself.
pub open spec fn pattern_of(segment: Seq<char>) -> SegmentPattern {
    if segment.len() > 0 && segment.first() == '{' && segment.last() == '}' {
        SegmentPattern::Variable(without_edges(segment))
    } else {
        SegmentPattern::Constant(segment)
    }
}

/// The segments of the route written as `p`.
pub open spec fn template_of(p: Seq<char>) -> Seq<SegmentPattern> {
    segments_of(p).map_values(|segment: Seq<char>| pattern_of(segment))
}

/// Whether each constant of `template` equals the segment in its place.
pub open spec fn constants_agree(template: Seq<SegmentPattern>, segments: Seq<Seq<char>>) -> bool {
    forall|i: int|
        0 <= i < template.len() ==> ((#[trigger] template[i]) matches SegmentPattern::Constant(text)
            ==> text == segments[i])
}

/// The variables of `template`, each with the segment in its place, in the
/// order in which the names first occur. Of a name that occurs twice the later
/// place counts.
pub open spec fn bindings(template: Seq<SegmentPattern>, segments: Seq<Seq<char>>) -> Seq<Entry>
    decreases template.len(),
{
    if template.len() == 0 {
        Seq::empty()
    } else {
        let before = bindings(template.drop_last(), segments);
        match template.last() {
            SegmentPattern::Variable(name) => put(before, name, segments[template.len() - 1]),
            SegmentPattern::Constant(_) => before,
        }
    }
}

/// The outcome of comparing `template` with `segments`: they match when they
/// are equally long and the constants agree; the variables, if there are any,
/// come with the match.
pub open spec fn match_outcome(template: Seq<SegmentPattern>, segments: Seq<Seq<char>>) -> MatchOutcome {
    if template.len() != segments.len() || !constants_agree(template, segments) {
        MatchOutcome::NotMatching
    } else if bindings(template, segments).len() == 0 {
        MatchOutcome::Matching
    } else {
        MatchOutcome::MatchingWithVariables(to_map(bindings(template, segments)))
    }
}

/// Whether `template` has a variable without a name.
pub open spec fn has_unnamed_variable(template: Seq<SegmentPattern>) -> bool {
    exists|i: int|
        0 <= i < template.len() && #[trigger] template[i] == SegmentPattern::Variable(Seq::empty())
}

/// Whether two variables of `template` have the same name.
pub open spec fn has_repeated_variable(template: Seq<SegmentPattern>) -> bool {
    exists|i: int, j: int|
        0 <= i < j < template.len() && (#[trigger] template[i]) is Variable && template[i]
            == #[trigger] template[j]
}

/// Each of the pieces that are kept is one of the pieces, and is not empty.
proof fn lemma_non_empty<T>(pieces: Seq<Seq<T>>)
    ensures
        forall|k: int|
            0 <= k < non_empty(pieces).len() ==> (#[trigger] non_empty(pieces)[k]).len() > 0
                && pieces.contains(non_empty(pieces)[k]),
    decreases pieces.len(),
{
    reveal(Seq::filter);
    if pieces.len() > 0 {
        lemma_non_empty(pieces.drop_last());
        let before = non_empty(pieces.drop_last());
        assert forall|k: int| 0 <= k < non_empty(pieces).len() implies (#[trigger] non_empty(
            pieces,
        )[k]).len() > 0 && pieces.contains(non_empty(pieces)[k]) by {
            if k < before.len() {
                let j = choose|j: int|
                    0 <= j < pieces.drop_last().len() && pieces.drop_last()[j] == before[k];
                assert(pieces[j] == before[k]);
            } else {
                assert(pieces[pieces.len() - 1] == non_empty(pieces)[k]);
            }
        }
    }
}

/// No segment of a path is empty, and none holds a `/`.
pub proof fn lemma_segments_of(p: Seq<char>)
    ensures
        forall|k: int|
            0 <= k < segments_of(p).len() ==> (#[trigger] segments_of(p)[k]).len() > 0 && !segments_of(
                p,
            )[k].contains('/'),
{
    lemma_split_on_join(p, '/');
    lemma_non_empty(split_on(p, '/'));
    assert forall|k: int| 0 <= k < segments_of(p).len() implies (#[trigger] segments_of(p)[k]).len()
        > 0 && !segments_of(p)[k].contains('/') by {
        let segment = segments_of(p)[k];
        let j = choose|j: int| 0 <= j < split_on(p, '/').len() && split_on(p, '/')[j] == segment;
        assert(!split_on(p, '/')[j].contains('/'));
    }
}

/// The bindings of a template hold no name twice.
pub proof fn lemma_bindings_distinct(template: Seq<SegmentPattern>, segments: Seq<Seq<char>>)
    ensures
        keys_distinct(bindings(template, segments)),
    decreases template.len(),
{
    if template.len() > 0 {
        lemma_bindings_distinct(template.drop_last(), segments);
        if let SegmentPattern::Variable(name) = template.last() {
            lemma_put(bindings(template.drop_last(), segments), name, segments[template.len() - 1]);
        }
    }
}

/// A route without variables never matches with variables, and it matches
/// exactly the path whose segments are its constants, one for one.
pub proof fn lemma_constant_template(template: Seq<SegmentPattern>, segments: Seq<Seq<char>>)
    requires
        forall|i: int| 0 <= i < template.len() ==> (#[trigger] template[i]) is Constant,
    ensures
        !(match_outcome(template, segments) is MatchingWithVariables),
        match_outcome(template, segments) is Matching <==> template == segments.map_values(
            |segment: Seq<char>| SegmentPattern::Constant(segment),
        ),
{
    lemma_constants_bind_nothing(template, segments);
    let constants = segments.map_values(|segment: Seq<char>| SegmentPattern::Constant(segment));
    if match_outcome(template, segments) is Matching {
        assert(template =~= constants);
    }
    if template == constants {
        assert(constants_agree(template, segments));
    }
}

/// A template of constants binds nothing.
proof fn lemma_constants_bind_nothing(template: Seq<SegmentPattern>, segments: Seq<Seq<char>>)
    requires
        forall|i: int| 0 <= i < template.len() ==> (#[trigger] template[i]) is Constant,
    ensures
        bindings(template, segments).len() == 0,
    decreases template.len(),
{
    if template.len() > 0 {
        lemma_constants_bind_nothing(template.drop_last(), segments);
    }
}

/// What the bindings of a template hold under the name of one of its
/// variables: the segment in the place where that name stands last.
proof fn lemma_bound_value(
    template: Seq<SegmentPattern>,
    segments: Seq<Seq<char>>,
    i: int,
    name: Seq<char>,
)
    requires
        0 <= i < template.len(),
        template[i] == SegmentPattern::Variable(name),
        forall|j: int| i < j < template.len() ==> template[j] != SegmentPattern::Variable(name),
    ensures
        has_key(bindings(template, segments), name),
        to_map(bindings(template, segments))[name] == segments[i],
    decreases template.len(),
{
    let before = bindings(template.drop_last(), segments);
    lemma_bindings_distinct(template.drop_last(), segments);
    if i == template.len() - 1 {
        lemma_put(before, name, segments[i]);
    } else {
        lemma_bound_value(template.drop_last(), segments, i, name);
        if let SegmentPattern::Variable(other) = template.last() {
            lemma_put(before, other, segments[template.len() - 1]);
            assert(to_map(before).dom().contains(name));
            assert(to_map(bindings(template, segments)).dom().contains(name));
        }
    }
}

/// Where a route matches a path, each of its variables is bound to the segment
/// in its place; of a name that stands in several places, the last place
/// counts. A route with a variable never matches without variables.
pub proof fn lemma_variable_binding(
    template: Seq<SegmentPattern>,
    segments: Seq<Seq<char>>,
    i: int,
    name: Seq<char>,
)
    requires
        !(match_outcome(template, segments) is NotMatching),
        0 <= i < template.len(),
        template[i] == SegmentPattern::Variable(name),
        forall|j: int| i < j < template.len() ==> template[j] != SegmentPattern::Variable(name),
    ensures
        match_outcome(template, segments) matches MatchOutcome::MatchingWithVariables(variables)
            && variables.dom().contains(name) && variables[name] == segments[i],
{
    lemma_bound_value(template, segments, i, name);
}

impl View for HttpPathSegment {
    type V = Seq<char>;

    open spec fn view(&self) -> Seq<char> {
        self.0@
    }
}

impl View for RouteMappingPathSegment {
    type V = SegmentPattern;

    open spec fn view(&self) -> SegmentPattern {
        match self {
            RouteMappingPathSegment::Constant(text) => SegmentPattern::Constant(text@),
            RouteMappingPathSegment::Variable(name) => SegmentPattern::Variable(name@),
        }
    }
}

impl View for PathCompareResult {
    type V = MatchOutcome;

    open spec fn view(&self) -> MatchOutcome {
        match self {
            PathCompareResult::NotMatching => MatchOutcome::NotMatching,
            PathCompareResult::Matching => MatchOutcome::Matching,
            PathCompareResult::MatchingWithVariables(variables) => MatchOutcome::MatchingWithVariables(
                variables.as_map(),
            ),
        }
    }
}

/// The texts of `segments`.
pub open spec fn segment_texts(segments: Seq<HttpPathSegment>) -> Seq<Seq<char>> {
    Seq::new(segments.len(), |i: int| segments[i]@)
}

/// The texts of `segments`.
pub open spec fn pattern_texts(segments: Seq<RouteMappingPathSegment>) -> Seq<SegmentPattern> {
    Seq::new(segments.len(), |i: int| segments[i]@)
}

/// The parts of `text` that lie between the bounds in `ranges`.
spec fn parts(text: Seq<char>, ranges: Seq<(usize, usize)>) -> Seq<Seq<char>> {
    Seq::new(ranges.len(), |k: int| text.subrange(ranges[k].0 as int, ranges[k].1 as int))
}

/// Where the segments of `chars` begin and end.
fn segment_ranges(chars: &Vec<char>) -> (ranges: Vec<(usize, usize)>)
    ensures
        parts(chars@, ranges@) == segments_of(chars@),
        forall|k: int|
            0 <= k < ranges@.len() ==> (#[trigger] ranges@[k]).0 < ranges@[k].1 <= chars@.len(),
{
    let mut ranges: Vec<(usize, usize)> = Vec::new();
    let mut start: usize = 0;
    let mut i: usize = 0;
    let ghost text = chars@;
    let ghost mut closed: Seq<Seq<char>> = Seq::empty();
    let ghost kept = |piece: Seq<char>| piece.len() > 0;
    proof {
        reveal(Seq::filter);
        assert(text.take(0) =~= Seq::empty());
        assert(closed.push(text.subrange(0, 0)) =~= split_on(text.take(0), '/'));
        assert(parts(text, ranges@) =~= closed.filter(kept));
    }
    while i < chars.len()
        invariant
            text == chars@,
            start <= i <= text.len(),
            kept == |piece: Seq<char>| piece.len() > 0,
            closed.push(text.subrange(start as int, i as int)) == split_on(text.take(i as int), '/'),
            parts(text, ranges@) == closed.filter(kept),
            forall|k: int| 0 <= k < ranges@.len() ==> (#[trigger] ranges@[k]).0 < ranges@[k].1 <= i,
        decreases text.len() - i,
    {
        let ghost open = text.subrange(start as int, i as int);
        assert(text.take(i + 1).drop_last() =~= text.take(i as int));
        if chars[i] == '/' {
            let ghost before = parts(text, ranges@);
            if i > start {
                ranges.push((start, i));
                assert(parts(text, ranges@) =~= before.push(open));
            }
            proof {
                reveal(Seq::filter);
                assert(closed.push(open).drop_last() =~= closed);
                closed = closed.push(open);
                assert(text.subrange(i + 1, i + 1) =~= Seq::empty());
            }
            start = i + 1;
        } else {
            assert(open.push(text[i as int]) =~= text.subrange(start as int, i + 1));
            assert(closed.push(open).update(closed.len() as int, open.push(text[i as int]))
                =~= closed.push(text.subrange(start as int, i + 1)));
        }
        i = i + 1;
    }
    let ghost open = text.subrange(start as int, i as int);
    let ghost before = parts(text, ranges@);
    if i > start {
        ranges.push((start, i));
        assert(parts(text, ranges@) =~= before.push(open));
    }
    proof {
        reveal(Seq::filter);
        assert(text.take(i as int) =~= text);
        assert(closed.push(open).drop_last() =~= closed);
    }
    ranges
}

/// `text` without its first and its last character; nothing where it has no
/// more than two.
pub fn trim_edges(text: &str) -> (inner: &str)
    ensures
        inner@ == without_edges(text@),
{
    let length = text.unicode_len();
    if length <= 2 {
        let inner = text.substring_char(0, 0);
        assert(inner@ =~= Seq::empty());
        inner
    } else {
        text.substring_char(1, length - 1)
    }
}

impl HttpPath {
    /// The text that the path was made from.
    pub open spec fn raw(&self) -> Seq<char> {
        self.path@
    }

    /// The texts of the segments.
    pub open spec fn segments(&self) -> Seq<Seq<char>> {
        segment_texts(self.path_segments@)
    }

    /// The text that the path was made from.
    pub fn as_str(&self) -> (text: &str)
        ensures
            text@ == self.raw(),
    {
        self.path.as_str()
    }

    /// The segments of `value`, in order.
    fn split(value: &str) -> (segments: Vec<HttpPathSegment>)
        ensures
            segment_texts(segments@) == segments_of(value@),
    {
        let chars = chars_of(value);
        let ranges = segment_ranges(&chars);
        let mut segments: Vec<HttpPathSegment> = Vec::new();
        let mut k: usize = 0;
        while k < ranges.len()
            invariant
                chars@ == value@,
                k <= ranges@.len(),
                forall|j: int|
                    0 <= j < ranges@.len() ==> (#[trigger] ranges@[j]).0 < ranges@[j].1 <= chars@.len(),
                segment_texts(segments@) == parts(chars@, ranges@).take(k as int),
            decreases ranges@.len() - k,
        {
            let ghost before = segment_texts(segments@);
            let (from, to) = ranges[k];
            segments.push(HttpPathSegment(slice_text(value, from, to)));
            assert(segment_texts(segments@) =~= before.push(value@.subrange(from as int, to as int)));
            assert(parts(chars@, ranges@).take(k + 1) =~= parts(chars@, ranges@).take(k as int).push(
                value@.subrange(from as int, to as int),
            ));
            k = k + 1;
        }
        assert(parts(chars@, ranges@).take(k as int) =~= parts(chars@, ranges@));
        segments
    }
}

impl Clone for HttpPathSegment {
    fn clone(&self) -> (copy: HttpPathSegment)
        ensures
            copy@ == self@,
    {
        HttpPathSegment(self.0.clone())
    }
}

impl Clone for HttpPath {
    fn clone(&self) -> (copy: HttpPath)
        ensures
            copy.raw() == self.raw(),
            copy.segments() == self.segments(),
    {
        let mut path_segments: Vec<HttpPathSegment> = Vec::new();
        let mut i: usize = 0;
        while i < self.path_segments.len()
            invariant
                i <= self.path_segments@.len(),
                segment_texts(path_segments@) == segment_texts(self.path_segments@).take(i as int),
            decreases self.path_segments@.len() - i,
        {
            let ghost before = segment_texts(path_segments@);
            path_segments.push(self.path_segments[i].clone());
            assert(segment_texts(path_segments@) =~= before.push(self.path_segments@[i as int]@));
            assert(segment_texts(self.path_segments@).take(i + 1) =~= segment_texts(
                self.path_segments@,
            ).take(i as int).push(self.path_segments@[i as int]@));
            i = i + 1;
        }
        assert(segment_texts(self.path_segments@).take(i as int) =~= segment_texts(
            self.path_segments@,
        ));
        HttpPath { path: self.path.clone(), path_segments }
    }
}

impl From<&str> for HttpPath {
    /// The path written as `value`: its segments are the non-empty texts
    /// between the `/` of `value`.
    fn from(value: &str) -> (path: HttpPath)
        ensures
            path.raw() == value@,
            path.segments() == segments_of(value@),
    {
        let path_segments = HttpPath::split(value);
        HttpPath { path: value.to_owned(), path_segments }
    }
}

impl FromSpecImpl<&str> for HttpPath {
    open spec fn obeys_from_spec() -> bool {
        false
    }

    open spec fn from_spec(value: &str) -> HttpPath {
        arbitrary()
    }
}

impl From<String> for HttpPath {
    /// The path written as `value`: its segments are the non-empty texts
    /// between the `/` of `value`.
    fn from(value: String) -> (path: HttpPath)
        ensures
            path.raw() == value@,
            path.segments() == segments_of(value@),
    {
        let path_segments = HttpPath::split(value.as_str());
        HttpPath { path: value, path_segments }
    }
}

impl FromSpecImpl<String> for HttpPath {
    open spec fn obeys_from_spec() -> bool {
        false
    }

    open spec fn from_spec(value: String) -> HttpPath {
        arbitrary()
    }
}

impl From<&str> for HttpPathSegment {
    fn from(value: &str) -> (segment: HttpPathSegment)
        ensures
            segment@ == value@,
    {
        HttpPathSegment(value.to_owned())
    }
}

impl FromSpecImpl<&str> for HttpPathSegment {
    open spec fn obeys_from_spec() -> bool {
        false
    }

    open spec fn from_spec(value: &str) -> HttpPathSegment {
        arbitrary()
    }
}

impl RouteMappingPath {
    /// The text that the route was made from.
    pub open spec fn raw(&self) -> Seq<char> {
        self.path@
    }

    /// The segments, as text.
    pub open spec fn template(&self) -> Seq<SegmentPattern> {
        pattern_texts(self.path_segments@)
    }

    /// Compares the route with the path of a request. They match when they
    /// have equally many segments and each constant of the route equals the
    /// segment in its place. The variables of the route, if it has any, come
    /// with the match, each with the segment in its place.
    pub fn matches(&self, http_path: &HttpPath) -> (result: PathCompareResult)
        ensures
            result@ == match_outcome(self.template(), http_path.segments()),
    {
        let route_segments = &self.path_segments;
        let path_segments = &http_path.path_segments;
        let ghost template = self.template();
        let ghost segments = http_path.segments();

        if route_segments.len() != path_segments.len() {
            return PathCompareResult::NotMatching;
        }
        let mut variables = TextMap::new();
        let mut i: usize = 0;
        assert(template.take(0) =~= Seq::empty());
        while i < route_segments.len()
            invariant
                i <= route_segments@.len(),
                route_segments@.len() == path_segments@.len(),
                template == self.template(),
                segments == http_path.segments(),
                template == pattern_texts(route_segments@),
                segments == segment_texts(path_segments@),
                constants_agree(template.take(i as int), segments),
                variables@ == bindings(template.take(i as int), segments),
            decreases route_segments@.len() - i,
        {
            let current_segment = &path_segments[i].0;
            assert(template.take(i + 1).drop_last() =~= template.take(i as int));
            assert(template.take(i + 1).last() == template[i as int]);
            assert(segments[i as int] == current_segment@);
            match &route_segments[i] {
                RouteMappingPathSegment::Constant(constant_path) => {
                    if !(*current_segment == *constant_path) {
                        assert(template[i as int] == SegmentPattern::Constant(constant_path@));
                        assert(!constants_agree(template, segments));
                        return PathCompareResult::NotMatching;
                    }
                },
                RouteMappingPathSegment::Variable(name) => {
                    variables.insert(name.clone(), current_segment.clone());
                },
            }
            assert forall|j: int| 0 <= j < i + 1 implies ((#[trigger] template.take(i + 1)[j])
                matches SegmentPattern::Constant(text) ==> text == segments[j]) by {
                if j < i {
                    assert(template.take(i as int)[j] == template.take(i + 1)[j]);
                }
            }
            i = i + 1;
        }
        assert(template.take(i as int) =~= template);
        if variables.len() == 0 {
            PathCompareResult::Matching
        } else {
            PathCompareResult::MatchingWithVariables(variables)
        }
    }
}

impl From<&str> for RouteMappingPath {
    /// The route written as `value`. Its segments are the non-empty texts
    /// between the `/` of `value`; one that begins with `{` and ends with `}`
    /// is a variable, named by what stands between the two.
    fn from(value: &str) -> (route: RouteMappingPath)
        ensures
            route.raw() == value@,
            route.template() == template_of(value@),
    {
        let chars = chars_of(value);
        let ranges = segment_ranges(&chars);
        let mut path_segments: Vec<RouteMappingPathSegment> = Vec::new();
        let mut k: usize = 0;
        let ghost wanted = template_of(value@);
        while k < ranges.len()
            invariant
                chars@ == value@,
                k <= ranges@.len(),
                forall|j: int|
                    0 <= j < ranges@.len() ==> (#[trigger] ranges@[j]).0 < ranges@[j].1 <= chars@.len(),
                parts(chars@, ranges@) == segments_of(value@),
                wanted == template_of(value@),
                pattern_texts(path_segments@) == wanted.take(k as int),
            decreases ranges@.len() - k,
        {
            let ghost before = pattern_texts(path_segments@);
            let (from, to) = ranges[k];
            let path_segment = value.substring_char(from, to);
            assert(path_segment@ == parts(chars@, ranges@)[k as int]);
            assert(path_segment@.first() == chars@[from as int]);
            assert(path_segment@.last() == chars@[to - 1]);
            let segment = if chars[from] != '{' || chars[to - 1] != '}' {
                RouteMappingPathSegment::Constant(path_segment.to_owned())
            } else {
                RouteMappingPathSegment::Variable(trim_edges(path_segment).to_owned())
            };
            assert(segment@ == pattern_of(path_segment@));
            path_segments.push(segment);
            assert(pattern_texts(path_segments@) =~= before.push(pattern_of(path_segment@)));
            assert(wanted.take(k + 1) =~= wanted.take(k as int).push(pattern_of(path_segment@)));
            k = k + 1;
        }
        assert(wanted.take(k as int) =~= wanted);
        RouteMappingPath { path: value.to_owned(), path_segments }
    }
}

impl FromSpecImpl<&str> for RouteMappingPath {
    open spec fn obeys_from_spec() -> bool {
        false
    }

    open spec fn from_spec(value: &str) -> RouteMappingPath {
        arbitrary()
    }
}

impl PartialEq for PathCompareResult {
    /// Two results are equal when they are of the same kind and, where they
    /// carry variables, map the same names to the same texts.
    fn eq(&self, other: &PathCompareResult) -> (equal: bool) {
        match (self, other) {
            (PathCompareResult::NotMatching, PathCompareResult::NotMatching) => true,
            (PathCompareResult::Matching, PathCompareResult::Matching) => true,
            (
                PathCompareResult::MatchingWithVariables(mine),
                PathCompareResult::MatchingWithVariables(theirs),
            ) => *mine == *theirs,
            _ => false,
        }
    }
}

impl PartialEqSpecImpl for PathCompareResult {
    open spec fn obeys_eq_spec() -> bool {
        true
    }

    open spec fn eq_spec(&self, other: &PathCompareResult) -> bool {
        self@ == other@
    }
}

impl RouteMappingPath {
    /// Whether a variable of the route has no name.
    pub fn has_empty_variable_name(&self) -> (found: bool)
        ensures
            found == has_unnamed_variable(self.template()),
    {
        let mut i: usize = 0;
        while i < self.path_segments.len()
            invariant
                i <= self.path_segments@.len(),
                forall|j: int|
                    0 <= j < i ==> (#[trigger] self.template()[j]) != SegmentPattern::Variable(Seq::empty()),
            decreases self.path_segments@.len() - i,
        {
            if let RouteMappingPathSegment::Variable(name) = &self.path_segments[i] {
                if name.as_str().is_empty() {
                    assert(self.template()[i as int] == SegmentPattern::Variable(Seq::empty())) by {
                        assert(name@ =~= Seq::empty());
                    }
                    return true;
                }
            }
            i = i + 1;
        }
        false
    }

    /// Whether the variable at `index` has the name of one before it.
    fn repeats_earlier(&self, index: usize) -> (found: bool)
        requires
            index < self.template().len(),
        ensures
            found == (self.template()[index as int] is Variable && exists|i: int|
                0 <= i < index && #[trigger] self.template()[i] == self.template()[index as int]),
    {
        if let RouteMappingPathSegment::Variable(name) = &self.path_segments[index] {
            let mut i: usize = 0;
            while i < index
                invariant
                    i <= index < self.path_segments@.len(),
                    self.path_segments@[index as int] == RouteMappingPathSegment::Variable(*name),
                    forall|j: int| 0 <= j < i ==> #[trigger] self.template()[j] != self.template()[index as int],
                decreases index - i,
            {
                if let RouteMappingPathSegment::Variable(earlier) = &self.path_segments[i] {
                    if *earlier == *name {
                        assert(self.template()[i as int] == self.template()[index as int]);
                        return true;
                    }
                }
                i = i + 1;
            }
        }
        false
    }

    /// Whether two variables of the route have the same name.
    pub fn has_duplicate_variable_name(&self) -> (found: bool)
        ensures
            found == has_repeated_variable(self.template()),
    {
        let mut j: usize = 0;
        while j < self.path_segments.len()
            invariant
                j <= self.path_segments@.len(),
                self.template().len() == self.path_segments@.len(),
                forall|a: int, b: int|
                    0 <= a < b < j ==> !((#[trigger] self.template()[a]) is Variable && self.template()[a]
                        == #[trigger] self.template()[b]),
            decreases self.path_segments@.len() - j,
        {
            if self.repeats_earlier(j) {
                let ghost i = choose|i: int|
                    0 <= i < j && #[trigger] self.template()[i] == self.template()[j as int];
                assert(self.template()[i] is Variable && self.template()[i] == self.template()[j as int]);
                return true;
            }
            j = j + 1;
        }
        false
    }
}

/// Writing a list of segments as one path.
pub trait ToPathString {
    /// The texts of the segments, in order.
    spec fn path_texts(&self) -> Seq<Seq<char>>;

    /// The segments with a `/` between each two.
    fn to_path_string(&self) -> (path: String)
        ensures
            path@ == join_with(self.path_texts(), '/'),
    ;
}

impl ToPathString for [HttpPathSegment] {
    open spec fn path_texts(&self) -> Seq<Seq<char>> {
        segment_texts(self@)
    }

    fn to_path_string(&self) -> (path: String) {
        let mut path = String::new();
        let mut i: usize = 0;
        assert(segment_texts(self@).take(0) =~= Seq::empty());
        proof {
            reveal_strlit("/");
        }
        while i < self.len()
            invariant
                i <= self@.len(),
                "/"@ == seq!['/'],
                path@ == join_with(segment_texts(self@).take(i as int), '/'),
            decreases self@.len() - i,
        {
            let ghost taken = segment_texts(self@).take(i as int);
            if i > 0 {
                path.append("/");
            }
            path.append(self[i].0.as_str());
            assert(segment_texts(self@).take(i + 1).drop_last() =~= taken);
            assert(path@ =~= join_with(segment_texts(self@).take(i + 1), '/'));
            i = i + 1;
        }
        assert(segment_texts(self@).take(i as int) =~= segment_texts(self@));
        path
    }
}

impl ToPathString for Vec<HttpPathSegment> {
    open spec fn path_texts(&self) -> Seq<Seq<char>> {
        segment_texts(self@)
    }

    fn to_path_string(&self) -> (path: String) {
        self.as_slice().to_path_string()
    }
}

} // verus!
