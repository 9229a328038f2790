//! File system paths as text, read by their components.

use crate::text::{
    chars_of, comes_before, lemma_text_before_total, lemma_text_before_transitive, same_text,
    text_before, text_of,
};
use vstd::prelude::*;
use vstd::string::*;

verus! {

/// A file system path by its text.
#[derive(Debug, PartialEq, Eq)]
pub struct FilePath {
    pub text: String,
}

impl View for FilePath {
    type V = Seq<char>;

    open spec fn view(&self) -> Seq<char> {
        self.text@
    }
}

impl Clone for FilePath {
    fn clone(&self) -> (copy: Self)
        ensures
            copy@ == self@,
    {
        FilePath { text: self.text.clone() }
    }
}

/// The texts of a sequence of paths.
pub open spec fn path_texts(paths: Seq<FilePath>) -> Seq<Seq<char>> {
    Seq::new(paths.len(), |i: int| paths[i]@)
}

/// The position of the first `/` at or after `from`, or the end of the text.
pub open spec fn separator_from(text: Seq<char>, from: int) -> int
    decreases text.len() - from,
{
    if from < 0 || from >= text.len() {
        text.len() as int
    } else if text[from] == '/' {
        from
    } else {
        separator_from(text, from + 1)
    }
}

/// Whether the text between two separators names a component: an empty name
/// does not, and `.` does only at the start of a relative path.
pub open spec fn names_component(text: Seq<char>, start: int, end: int) -> bool {
    start < end && !(end == start + 1 && text[start] == '.' && start != 0)
}

/// The places of the named components from `from` on.
pub open spec fn spans_from(text: Seq<char>, from: int) -> Seq<(int, int)>
    decreases text.len() - from,
{
    if from < 0 || from >= text.len() {
        seq![]
    } else {
        let end = separator_from(text, from);
        let rest = if from <= end < text.len() {
            spans_from(text, end + 1)
        } else {
            seq![]
        };
        if names_component(text, from, end) {
            seq![(from, end)] + rest
        } else {
            rest
        }
    }
}

pub open spec fn spans(text: Seq<char>) -> Seq<(int, int)> {
    spans_from(text, 0)
}

pub open spec fn is_absolute(text: Seq<char>) -> bool {
    text.len() > 0 && text[0] == '/'
}

pub open spec fn span_texts(text: Seq<char>, spans: Seq<(int, int)>) -> Seq<Seq<char>> {
    Seq::new(spans.len(), |i: int| text.subrange(spans[i].0, spans[i].1))
}

/// The components of a path: the root of an absolute path, then the names.
pub open spec fn components(text: Seq<char>) -> Seq<Seq<char>> {
    if is_absolute(text) {
        seq![seq!['/']] + span_texts(text, spans(text))
    } else {
        span_texts(text, spans(text))
    }
}

/// What remains of `path` below `base`, if `base` leads to it.
pub open spec fn relative_text(path: Seq<char>, base: Seq<char>) -> Option<Seq<char>> {
    let all = components(path);
    let leading = components(base);
    let places = spans(path);
    let root: int = if is_absolute(path) {
        1
    } else {
        0
    };
    if !leading.is_prefix_of(all) {
        None
    } else if leading.len() == all.len() && leading.len() > 0 {
        Some(seq![])
    } else if leading.len() == 0 {
        if places.len() == 0 {
            Some(path.subrange(0, root))
        } else {
            Some(path.subrange(0, places.last().1))
        }
    } else {
        Some(path.subrange(places[leading.len() - root].0, places.last().1))
    }
}

/// The last component of a path, unless it is the root, `.` or `..`.
pub open spec fn final_name(path: Seq<char>) -> Option<Seq<char>> {
    let all = components(path);
    if all.len() == 0 || component_rank(all.last()) < 3 {
        None
    } else {
        Some(all.last())
    }
}

/// Kinds of components in their order: the root, `.`, `..`, names.
pub open spec fn component_rank(component: Seq<char>) -> int {
    if component == seq!['/'] {
        0
    } else if component == seq!['.'] {
        1
    } else if component == seq!['.', '.'] {
        2
    } else {
        3
    }
}

pub open spec fn component_before(left: Seq<char>, right: Seq<char>) -> bool {
    component_rank(left) < component_rank(right) || (component_rank(left) == 3 && component_rank(
        right,
    ) == 3 && text_before(left, right))
}

/// Whether one list of components comes before another, compared in turn.
pub open spec fn components_before(left: Seq<Seq<char>>, right: Seq<Seq<char>>) -> bool
    decreases left.len(),
{
    if right.len() == 0 {
        false
    } else if left.len() == 0 {
        true
    } else if left[0] != right[0] {
        component_before(left[0], right[0])
    } else {
        components_before(left.skip(1), right.skip(1))
    }
}

/// The paths with one more: nothing changes if a path with the same components
/// is there, else it goes in front of the first greater path.
pub open spec fn with_path(paths: Seq<Seq<char>>, path: Seq<char>) -> Seq<Seq<char>>
    decreases paths.len(),
{
    if paths.len() == 0 {
        seq![path]
    } else if components(paths[0]) == components(path) {
        paths
    } else if components_before(components(path), components(paths[0])) {
        seq![path] + paths
    } else {
        seq![paths[0]] + with_path(paths.skip(1), path)
    }
}

/// The distinct paths in order.
pub open spec fn distinct_paths(paths: Seq<Seq<char>>) -> Seq<Seq<char>>
    decreases paths.len(),
{
    if paths.len() == 0 {
        seq![]
    } else {
        with_path(distinct_paths(paths.drop_last()), paths.last())
    }
}

proof fn lemma_separator(text: Seq<char>, from: int)
    requires
        0 <= from <= text.len(),
    ensures
        from <= separator_from(text, from) <= text.len(),
    decreases text.len() - from,
{
    if from < text.len() && text[from] != '/' {
        lemma_separator(text, from + 1);
    }
}

pub proof fn lemma_spans_in_range(text: Seq<char>, from: int)
    requires
        0 <= from,
    ensures
        forall|i: int|
            0 <= i < spans_from(text, from).len() ==> {
                let span = #[trigger] spans_from(text, from)[i];
                from <= span.0 < span.1 <= text.len()
            },
        forall|i: int, j: int|
            0 <= i < j < spans_from(text, from).len() ==> (#[trigger] spans_from(text, from)[i]).1
                < (#[trigger] spans_from(text, from)[j]).0,
    decreases text.len() - from,
{
    if from < text.len() {
        lemma_separator(text, from);
        let end = separator_from(text, from);
        let rest: Seq<(int, int)> = if end < text.len() {
            spans_from(text, end + 1)
        } else {
            seq![]
        };
        if end < text.len() {
            lemma_spans_in_range(text, end + 1);
        }
        let all = spans_from(text, from);
        if names_component(text, from, end) {
            assert forall|i: int| 0 <= i < all.len() implies {
                let span = #[trigger] all[i];
                from <= span.0 < span.1 <= text.len()
            } by {
                if i > 0 {
                    assert(all[i] == rest[i - 1]);
                }
            }
            assert forall|i: int, j: int| 0 <= i < j < all.len() implies (#[trigger] all[i]).1 < (
            #[trigger] all[j]).0 by {
                assert(all[j] == rest[j - 1]);
                if i > 0 {
                    assert(all[i] == rest[i - 1]);
                }
            }
        }
    }
}

/// A path with its components picked out.
struct PathParts {
    chars: Vec<char>,
    spans: Vec<(usize, usize)>,
}

impl PathParts {
    spec fn is_of(&self, text: Seq<char>) -> bool {
        &&& self.chars@ == text
        &&& self.spans@.len() == spans(text).len()
        &&& forall|i: int|
            0 <= i < self.spans@.len() ==> {
                let span = #[trigger] self.spans@[i];
                spans(text)[i] == (span.0 as int, span.1 as int)
            }
    }

    fn of(text: &str) -> (parts: Self)
        ensures
            parts.is_of(text@),
    {
        let chars = chars_of(text);
        let mut found: Vec<(usize, usize)> = Vec::new();
        let ghost mut places: Seq<(int, int)> = seq![];
        let mut from: usize = 0;
        let ghost all = spans(text@);
        assert(places + spans_from(text@, 0) =~= all);
        while from < chars.len()
            invariant
                chars@ == text@,
                from <= chars@.len(),
                places + spans_from(text@, from as int) == all,
                all == spans(text@),
                places.len() == found@.len(),
                forall|i: int|
                    0 <= i < found@.len() ==> {
                        let span = #[trigger] found@[i];
                        places[i] == (span.0 as int, span.1 as int)
                    },
            decreases chars@.len() - from,
        {
            let mut end: usize = from;
            while end < chars.len() && chars[end] != '/'
                invariant
                    chars@ == text@,
                    from <= end <= chars@.len(),
                    separator_from(text@, from as int) == separator_from(text@, end as int),
                decreases chars@.len() - end,
            {
                end = end + 1;
            }
            let next: usize = if end < chars.len() {
                end + 1
            } else {
                end
            };
            if from < end && !(end - from == 1 && chars[from] == '.' && from != 0) {
                found.push((from, end));
                proof {
                    let place = (from as int, end as int);
                    assert(places + (seq![place] + spans_from(text@, next as int))
                        =~= places.push(place) + spans_from(text@, next as int));
                    places = places.push(place);
                }
            }
            from = next;
        }
        assert(spans_from(text@, from as int) =~= seq![]);
        assert(places =~= all);
        PathParts { chars, spans: found }
    }

    fn absolute(&self) -> (absolute: bool)
        ensures
            absolute == is_absolute(self.chars@),
    {
        self.chars.len() > 0 && self.chars[0] == '/'
    }

    /// The components in order.
    fn components(&self, Ghost(text): Ghost<Seq<char>>) -> (names: Vec<String>)
        requires
            self.is_of(text),
        ensures
            crate::text::texts(names@) == components(text),
    {
        let mut names: Vec<String> = Vec::new();
        let ghost root: int = if is_absolute(text) {
            1
        } else {
            0
        };
        if self.absolute() {
            let mut separator = String::new();
            separator.push('/');
            names.push(separator);
            assert(names@[0]@ =~= seq!['/']);
        }
        let mut i: usize = 0;
        while i < self.spans.len()
            invariant
                self.is_of(text),
                i <= self.spans@.len(),
                root == if is_absolute(text) {
                    1int
                } else {
                    0int
                },
                names@.len() == root + i,
                forall|j: int| 0 <= j < names@.len() ==> (#[trigger] names@[j])@ == components(text)[j],
            decreases self.spans@.len() - i,
        {
            proof {
                lemma_spans_in_range(text, 0);
                assert(spans(text)[i as int] == (
                    self.spans@[i as int].0 as int,
                    self.spans@[i as int].1 as int,
                ));
            }
            let name = text_of(&self.chars, self.spans[i].0, self.spans[i].1);
            assert(name@ == components(text)[root + i]);
            names.push(name);
            i = i + 1;
        }
        assert(crate::text::texts(names@) =~= components(text));
        names
    }
}

impl FilePath {
    pub fn new(text: &str) -> (path: Self)
        ensures
            path@ == text@,
    {
        FilePath { text: text.to_owned() }
    }

    /// The components of this path.
    pub fn component_names(&self) -> (names: Vec<String>)
        ensures
            crate::text::texts(names@) == components(self@),
    {
        let parts = PathParts::of(self.text.as_str());
        parts.components(Ghost(self@))
    }

    pub fn absolute(&self) -> (absolute: bool)
        ensures
            absolute == is_absolute(self@),
    {
        PathParts::of(self.text.as_str()).absolute()
    }

    /// What remains of this path below `base`.
    pub fn relative_to(&self, base: &FilePath) -> (rest: Option<String>)
        ensures
            match rest {
                Some(text) => relative_text(self@, base@) == Some(text@),
                None => relative_text(self@, base@) is None,
            },
    {
        let parts = PathParts::of(self.text.as_str());
        let all = parts.components(Ghost(self@));
        let leading = base.component_names();
        let ghost leads = components(base@);
        let ghost names = components(self@);
        proof {
            lemma_spans_in_range(self@, 0);
            assert(all@.len() == names.len());
            assert(leading@.len() == leads.len());
        }
        if leading.len() > all.len() {
            return None;
        }
        let mut i: usize = 0;
        while i < leading.len()
            invariant
                i <= leading@.len() <= all@.len(),
                leads == components(base@),
                names == components(self@),
                crate::text::texts(leading@) == leads,
                crate::text::texts(all@) == names,
                forall|j: int| 0 <= j < i ==> leads[j] == names[j],
            decreases leading@.len() - i,
        {
            assert(leads[i as int] == leading@[i as int]@);
            assert(names[i as int] == all@[i as int]@);
            if !same_text(leading[i].as_str(), all[i].as_str()) {
                assert(!leads.is_prefix_of(names));
                return None;
            }
            i = i + 1;
        }
        assert(leads =~= names.subrange(0, leads.len() as int));
        assert(leads.is_prefix_of(names));
        if leading.len() == all.len() && leading.len() > 0 {
            let rest = String::new();
            assert(rest@ =~= seq![]);
            return Some(rest);
        }
        let root: usize = if parts.absolute() {
            1
        } else {
            0
        };
        let count: usize = parts.spans.len();
        if count == 0 {
            return Some(text_of(&parts.chars, 0, root));
        }
        let last = parts.spans[count - 1];
        assert(spans(self@).last() == (last.0 as int, last.1 as int));
        if leading.len() == 0 {
            return Some(text_of(&parts.chars, 0, last.1));
        }
        assert(leading@.len() >= root) by {
            if is_absolute(self@) {
                assert(leads.len() > 0);
            }
        }
        let first = parts.spans[leading.len() - root];
        assert(spans(self@)[leading@.len() - root] == (first.0 as int, first.1 as int));
        proof {
            if leading@.len() - root < count - 1 {
                assert(spans(self@)[leading@.len() - root].1 < spans(self@).last().0);
            }
        }
        Some(text_of(&parts.chars, first.0, last.1))
    }

    /// The last component, unless it is the root, `.` or `..`.
    pub fn file_name(&self) -> (name: Option<String>)
        ensures
            match name {
                Some(text) => final_name(self@) == Some(text@),
                None => final_name(self@) is None,
            },
    {
        let names = self.component_names();
        let ghost all = components(self@);
        if names.len() == 0 {
            return None;
        }
        let last = names[names.len() - 1].clone();
        assert(all.last() == last@);
        if rank_of(last.as_str()) < 3 {
            None
        } else {
            Some(last)
        }
    }

    /// Whether two paths have the same components.
    pub fn same_path(&self, other: &FilePath) -> (same: bool)
        ensures
            same == (components(self@) == components(other@)),
    {
        let a = self.component_names();
        let b = other.component_names();
        let ghost left = components(self@);
        let ghost right = components(other@);
        if a.len() != b.len() {
            assert(left.len() != right.len());
            return false;
        }
        let mut i: usize = 0;
        while i < a.len()
            invariant
                a@.len() == b@.len(),
                left == components(self@),
                right == components(other@),
                crate::text::texts(a@) == left,
                crate::text::texts(b@) == right,
                i <= a@.len(),
                forall|j: int| 0 <= j < i ==> left[j] == right[j],
            decreases a@.len() - i,
        {
            assert(left[i as int] == a@[i as int]@);
            assert(right[i as int] == b@[i as int]@);
            if !same_text(a[i].as_str(), b[i].as_str()) {
                return false;
            }
            i = i + 1;
        }
        assert(left =~= right);
        true
    }

    /// Whether this path comes before another, component by component.
    pub fn before(&self, other: &FilePath) -> (before: bool)
        ensures
            before == components_before(components(self@), components(other@)),
    {
        let a = self.component_names();
        let b = other.component_names();
        let ghost left = components(self@);
        let ghost right = components(other@);
        let mut i: usize = 0;
        assert(left.skip(0) =~= left);
        assert(right.skip(0) =~= right);
        while i < a.len() && i < b.len()
            invariant
                left == components(self@),
                right == components(other@),
                crate::text::texts(a@) == left,
                crate::text::texts(b@) == right,
                i <= a@.len(),
                i <= b@.len(),
                components_before(left, right) == components_before(
                    left.skip(i as int),
                    right.skip(i as int),
                ),
            decreases a@.len() - i,
        {
            assert(left.skip(i as int).skip(1) =~= left.skip(i + 1));
            assert(right.skip(i as int).skip(1) =~= right.skip(i + 1));
            assert(left[i as int] == a@[i as int]@);
            assert(right[i as int] == b@[i as int]@);
            if !same_text(a[i].as_str(), b[i].as_str()) {
                let x = rank_of(a[i].as_str());
                let y = rank_of(b[i].as_str());
                return x < y || (x == 3 && y == 3 && comes_before(a[i].as_str(), b[i].as_str()));
            }
            i = i + 1;
        }
        assert(left.skip(i as int).len() == left.len() - i);
        assert(right.skip(i as int).len() == right.len() - i);
        i < b.len()
    }
}

fn rank_of(component: &str) -> (rank: u8)
    ensures
        rank == component_rank(component@),
{
    proof {
        reveal_strlit("/");
        reveal_strlit(".");
        reveal_strlit("..");
        assert("/"@ =~= seq!['/']);
        assert("."@ =~= seq!['.']);
        assert(".."@ =~= seq!['.', '.']);
    }
    if same_text(component, "/") {
        0
    } else if same_text(component, ".") {
        1
    } else if same_text(component, "..") {
        2
    } else {
        3
    }
}

/// The distinct paths in order.
pub fn sort_distinct(paths: &Vec<FilePath>) -> (sorted: Vec<FilePath>)
    ensures
        path_texts(sorted@) == distinct_paths(path_texts(paths@)),
{
    let mut sorted: Vec<FilePath> = Vec::new();
    let ghost all = path_texts(paths@);
    let mut i: usize = 0;
    assert(all.take(0) =~= seq![]);
    assert(path_texts(sorted@) =~= seq![]);
    while i < paths.len()
        invariant
            all == path_texts(paths@),
            i <= paths@.len(),
            path_texts(sorted@) == distinct_paths(all.take(i as int)),
        decreases paths@.len() - i,
    {
        proof {
            let next = all.take(i + 1);
            assert(next.drop_last() =~= all.take(i as int));
            assert(next.last() == paths@[i as int]@);
        }
        insert_distinct(&mut sorted, &paths[i]);
        i = i + 1;
    }
    assert(all.take(i as int) =~= all);
    sorted
}

fn insert_distinct(sorted: &mut Vec<FilePath>, path: &FilePath)
    ensures
        path_texts(final(sorted)@) == with_path(path_texts(old(sorted)@), path@),
{
    let ghost before = path_texts(sorted@);
    let mut i: usize = 0;
    assert(before.skip(0) =~= before);
    assert(with_path(before, path@) =~= before.take(0) + with_path(before.skip(0), path@));
    while i < sorted.len()
        invariant
            before == path_texts(old(sorted)@),
            *sorted == *old(sorted),
            i <= sorted@.len(),
            with_path(before, path@) == before.take(i as int) + with_path(
                before.skip(i as int),
                path@,
            ),
        decreases sorted@.len() - i,
    {
        let ghost rest = before.skip(i as int);
        assert(rest[0] == sorted@[i as int]@);
        if sorted[i].same_path(path) {
            assert(before.take(i as int) + rest =~= before);
            return ;
        }
        if path.before(&sorted[i]) {
            sorted.insert(i, path.clone());
            assert(path_texts(sorted@) =~= before.take(i as int) + (seq![path@] + rest));
            return ;
        }
        proof {
            assert(rest.skip(1) =~= before.skip(i + 1));
            assert(before.take(i as int) + (seq![rest[0]] + with_path(rest.skip(1), path@))
                =~= before.take(i + 1) + with_path(before.skip(i + 1), path@));
        }
        i = i + 1;
    }
    sorted.push(path.clone());
    assert(before.skip(i as int) =~= seq![]);
    assert(path_texts(sorted@) =~= before.take(i as int) + seq![path@]);
}

/// Paths are taken one by one, in order.
pub proof fn law_paths_are_taken_in_order(paths: Seq<FilePath>)
    ensures
        path_texts(paths).len() == paths.len(),
        forall|i: int| 0 <= i < paths.len() ==> #[trigger] path_texts(paths)[i] == paths[i]@,
{
}

/// The first separator from a place on is not before the place, and what lies between
/// holds none.
proof fn lemma_separator_from(text: Seq<char>, from: int)
    requires
        0 <= from <= text.len(),
    ensures
        from <= separator_from(text, from) <= text.len(),
        separator_from(text, from) < text.len() ==> text[separator_from(text, from)] == '/',
        forall|i: int| from <= i < separator_from(text, from) ==> #[trigger] text[i] != '/',
    decreases text.len() - from,
{
    if from < text.len() && text[from] != '/' {
        lemma_separator_from(text, from + 1);
    }
}

/// A separator that is the first from a place on is found as such.
proof fn lemma_separator_is_first(text: Seq<char>, from: int, at: int)
    requires
        0 <= from <= at <= text.len(),
        at < text.len() ==> text[at] == '/',
        forall|i: int| from <= i < at ==> #[trigger] text[i] != '/',
    ensures
        separator_from(text, from) == at,
    decreases at - from,
{
    if from < at {
        lemma_separator_is_first(text, from + 1, at);
    }
}

proof fn lemma_spans_joined(text: Seq<char>, name: Seq<char>, from: int)
    requires
        0 <= from <= text.len(),
        is_plain_name(name),
    ensures
        spans_from(text + seq!['/'] + name, from) == spans_from(text, from).push(
            (text.len() as int + 1, text.len() as int + 1 + name.len()),
        ),
    decreases text.len() - from,
{
    let full = text + seq!['/'] + name;
    let n = text.len() as int;
    assert forall|i: int| 0 <= i < n implies #[trigger] full[i] == text[i] by {}
    assert(full[n] == '/');
    assert forall|i: int| n < i < full.len() implies #[trigger] full[i] == name[i - n - 1] by {}
    assert forall|i: int| n + 1 <= i < full.len() implies #[trigger] full[i] != '/' by {
        assert(name[i - n - 1] != '/');
    }
    lemma_separator_is_first(full, n + 1, full.len() as int);
    let last = (n + 1, n + 1 + name.len());
    if name.len() == 1 {
        assert(name[0] != '.') by {
            if name[0] == '.' {
                assert(name =~= seq!['.']);
            }
        }
    }
    assert(names_component(full, n + 1, full.len() as int));
    assert(spans_from(full, n + 1) =~= seq![last]);
    if from == n {
        assert(separator_from(full, n) == n);
        assert(spans_from(full, n) =~= spans_from(full, n + 1));
        assert(spans_from(text, n).push(last) =~= seq![last]);
    } else {
        let end = separator_from(text, from);
        lemma_separator_from(text, from);
        assert forall|i: int| from <= i < end implies #[trigger] full[i] != '/' by {
            assert(text[i] != '/');
        }
        lemma_separator_is_first(full, from, end);
        assert(names_component(full, from, end) == names_component(text, from, end));
        if end < n {
            lemma_spans_joined(text, name, end + 1);
            let rest = spans_from(text, end + 1);
            assert(spans_from(full, end + 1) == rest.push(last));
            if names_component(text, from, end) {
                assert(seq![(from, end)] + rest.push(last) =~= (seq![(from, end)] + rest).push(last));
            }
        } else {
            assert(spans_from(full, from) =~= spans_from(text, from).push(last));
        }
    }
}

/// Whether a text is the plain name of a file: not empty, without a separator, and not
/// the place itself.
pub open spec fn is_plain_name(name: Seq<char>) -> bool {
    name.len() > 0 && !name.contains('/') && name != seq!['.']
}

/// Whether a span of a text, at or behind a place, is a name in it: not empty, without
/// a separator, and not a dot behind the start.
spec fn is_name_span(text: Seq<char>, span: (int, int), from: int) -> bool {
    &&& from <= span.0 < span.1 <= text.len()
    &&& forall|j: int| span.0 <= j < span.1 ==> #[trigger] text[j] != '/'
    &&& span.0 > 0 && span.1 == span.0 + 1 ==> text[span.0] != '.'
}

proof fn lemma_spans_are_names(text: Seq<char>, from: int)
    requires
        0 <= from <= text.len(),
    ensures
        forall|i: int|
            0 <= i < spans_from(text, from).len() ==> is_name_span(
                text,
                #[trigger] spans_from(text, from)[i],
                from,
            ),
    decreases text.len() - from,
{
    if from < text.len() {
        let end = separator_from(text, from);
        lemma_separator_from(text, from);
        let rest = if end < text.len() {
            spans_from(text, end + 1)
        } else {
            seq![]
        };
        if end < text.len() {
            lemma_spans_are_names(text, end + 1);
        }
        let all = spans_from(text, from);
        assert forall|i: int| 0 <= i < all.len() implies is_name_span(
            text,
            #[trigger] all[i],
            from,
        ) by {
            if names_component(text, from, end) {
                if i > 0 {
                    assert(all[i] == rest[i - 1]);
                    assert(is_name_span(text, rest[i - 1], end + 1));
                }
            } else {
                assert(all[i] == rest[i]);
                assert(is_name_span(text, rest[i], end + 1));
            }
        }
    }
}

/// A path is made of names between separators, behind the root where it is absolute:
/// no name is empty or holds a separator, and only the first may be a dot.
pub proof fn law_path_is_made_of_names(path: Seq<char>)
    ensures
        ({
            let names = components(path);
            let root: int = if is_absolute(path) {
                1
            } else {
                0
            };
            &&& is_absolute(path) <==> path.len() > 0 && path[0] == '/'
            &&& is_absolute(path) ==> names.len() > 0 && names[0] == seq!['/']
            &&& forall|i: int|
                root <= i < names.len() ==> (#[trigger] names[i]).len() > 0 && !names[i].contains(
                    '/',
                ) && (names[i] == seq!['.'] ==> i == 0)
        }),
{
    let names = components(path);
    let places = spans(path);
    lemma_spans_are_names(path, 0);
    let root: int = if is_absolute(path) {
        1
    } else {
        0
    };
    assert forall|i: int| root <= i < names.len() implies (#[trigger] names[i]).len() > 0
        && !names[i].contains('/') && (names[i] == seq!['.'] ==> i == 0) by {
        let span = places[i - root];
        assert(is_name_span(path, span, 0));
        assert(names[i] == path.subrange(span.0, span.1));
        assert forall|j: int| 0 <= j < names[i].len() implies names[i][j] != '/' by {
            assert(path[span.0 + j] != '/');
        }
        if names[i] == seq!['.'] {
            assert(names[i][0] == '.');
            assert(path[span.0] == '.');
            assert(span.0 == 0);
            if i > root {
                lemma_spans_ascend(path, 0, 0, i - root);
                assert(is_name_span(path, places[0], 0));
            }
        }
    }
}

proof fn lemma_spans_ascend(text: Seq<char>, from: int, i: int, j: int)
    requires
        0 <= from <= text.len(),
        0 <= i < j < spans_from(text, from).len(),
    ensures
        spans_from(text, from)[i].1 < spans_from(text, from)[j].0,
    decreases text.len() - from,
{
    let end = separator_from(text, from);
    lemma_separator_from(text, from);
    let rest = if end < text.len() {
        spans_from(text, end + 1)
    } else {
        seq![]
    };
    let all = spans_from(text, from);
    if names_component(text, from, end) {
        assert(all[j] == rest[j - 1]);
        if i > 0 {
            assert(all[i] == rest[i - 1]);
            lemma_spans_ascend(text, end + 1, i - 1, j - 1);
        } else {
            lemma_spans_are_names(text, end + 1);
            assert(is_name_span(text, rest[j - 1], end + 1));
        }
    } else {
        assert(all[i] == rest[i] && all[j] == rest[j]);
        lemma_spans_ascend(text, end + 1, i, j);
    }
}

/// A name behind a path is its last part, and its final name unless it leads upwards.
/// What lies in a directory is relative to it by its name.
pub proof fn law_name_is_the_last_part(path: Seq<char>, name: Seq<char>)
    requires
        path.len() > 0,
        is_plain_name(name),
    ensures
        ({
            let full = path + seq!['/'] + name;
            &&& components(full) == components(path).push(name)
            &&& name != seq!['.', '.'] ==> final_name(full) == Some(name)
            &&& name == seq!['.', '.'] ==> final_name(full) is None
            &&& components(path).len() > 0 ==> relative_text(full, path) == Some(name)
        }),
{
    let full = path + seq!['/'] + name;
    lemma_spans_joined(path, name, 0);
    lemma_spans_are_names(path, 0);
    let places = spans(path);
    let all = spans(full);
    assert(full[0] == path[0]);
    assert forall|i: int| 0 <= i < places.len() implies full.subrange(
        (#[trigger] places[i]).0,
        places[i].1,
    ) == path.subrange(places[i].0, places[i].1) by {
        assert(is_name_span(path, places[i], 0));
        assert(full.subrange(places[i].0, places[i].1) =~= path.subrange(
            places[i].0,
            places[i].1,
        ));
    }
    assert(full.subrange(path.len() as int + 1, path.len() as int + 1 + name.len()) =~= name);
    assert(components(full) =~= components(path).push(name));
    assert(components(full).last() == name);
    if name.len() == 1 {
        assert(name[0] != '/');
        if name == seq!['/'] {
            assert(name.contains('/'));
        }
    }
    if name == seq!['/'] {
        assert(name[0] == '/');
        assert(name.contains('/'));
    }
    assert(seq!['.', '.'].len() == 2);
    assert(components(path).is_prefix_of(components(full)));
}

proof fn lemma_component_order(left: Seq<char>, right: Seq<char>)
    ensures
        left == right || component_before(left, right) || component_before(right, left),
        !component_before(left, left),
        component_before(left, right) ==> !component_before(right, left),
{
    lemma_text_before_total(left, right);
    lemma_text_before_total(right, right);
    if text_before(left, right) && text_before(right, left) {
        lemma_text_before_transitive(left, right, left);
        lemma_text_before_total(left, left);
    }
    lemma_text_before_total(left, left);
}

proof fn lemma_component_transitive(a: Seq<char>, b: Seq<char>, c: Seq<char>)
    requires
        component_before(a, b),
        component_before(b, c),
    ensures
        component_before(a, c),
{
    if component_rank(a) == 3 && component_rank(b) == 3 && component_rank(c) == 3 {
        lemma_text_before_transitive(a, b, c);
    }
}

proof fn lemma_components_order(left: Seq<Seq<char>>, right: Seq<Seq<char>>)
    ensures
        left == right || components_before(left, right) || components_before(right, left),
        !components_before(left, left),
        components_before(left, right) ==> !components_before(right, left),
    decreases left.len(),
{
    if left.len() > 0 {
        lemma_components_order(left.skip(1), left.skip(1));
    }
    if left.len() > 0 && right.len() > 0 {
        lemma_component_order(left[0], right[0]);
        if left[0] == right[0] {
            lemma_components_order(left.skip(1), right.skip(1));
            if left.skip(1) == right.skip(1) {
                assert(left =~= seq![left[0]] + left.skip(1));
                assert(right =~= seq![right[0]] + right.skip(1));
            }
        }
    } else if left.len() == 0 && right.len() == 0 {
        assert(left =~= right);
    }
}

proof fn lemma_components_transitive(
    a: Seq<Seq<char>>,
    b: Seq<Seq<char>>,
    c: Seq<Seq<char>>,
)
    requires
        components_before(a, b),
        components_before(b, c),
    ensures
        components_before(a, c),
    decreases a.len(),
{
    if a.len() > 0 {
        if a[0] == b[0] && b[0] == c[0] {
            lemma_components_transitive(a.skip(1), b.skip(1), c.skip(1));
        } else if a[0] != b[0] && b[0] != c[0] {
            lemma_component_transitive(a[0], b[0], c[0]);
            lemma_component_order(a[0], b[0]);
        }
    }
}

/// Whether paths stand in order, and none of them twice.
pub open spec fn paths_in_order(paths: Seq<Seq<char>>) -> bool {
    forall|i: int, j: int|
        0 <= i < j < paths.len() ==> components_before(
            components(#[trigger] paths[i]),
            components(#[trigger] paths[j]),
        )
}

/// Whether some of the paths has the parts of a path.
pub open spec fn holds_path(paths: Seq<Seq<char>>, path: Seq<char>) -> bool {
    exists|i: int| 0 <= i < paths.len() && components(#[trigger] paths[i]) == components(path)
}

proof fn lemma_with_path(paths: Seq<Seq<char>>, path: Seq<char>)
    requires
        paths_in_order(paths),
    ensures
        paths_in_order(with_path(paths, path)),
        forall|other: Seq<char>| #[trigger]
            holds_path(with_path(paths, path), other) <==> holds_path(paths, other) || components(
                other,
            ) == components(path),
    decreases paths.len(),
{
    let more = with_path(paths, path);
    if paths.len() == 0 {
        assert(more[0] == path);
    } else {
        let rest = paths.skip(1);
        assert(paths[0] == paths.first());
        assert forall|i: int| 0 <= i < rest.len() implies #[trigger] rest[i] == paths[i + 1] by {}
        if components(paths[0]) == components(path) {
            assert forall|other: Seq<char>| #[trigger]
                holds_path(more, other) <==> holds_path(paths, other) || components(other)
                    == components(path) by {
                if components(other) == components(path) {
                    assert(components(paths[0]) == components(other));
                }
            }
        } else if components_before(components(path), components(paths[0])) {
            assert forall|i: int| 0 < i < more.len() implies #[trigger] more[i] == paths[i - 1] by {}
            assert(more[0] == path);
            assert forall|i: int, j: int| 0 <= i < j < more.len() implies components_before(
                components(#[trigger] more[i]),
                components(#[trigger] more[j]),
            ) by {
                if i == 0 {
                    if j > 1 {
                        assert(components_before(components(paths[0]), components(paths[j - 1])));
                        lemma_components_transitive(
                            components(path),
                            components(paths[0]),
                            components(paths[j - 1]),
                        );
                    }
                } else {
                    assert(components_before(components(paths[i - 1]), components(paths[j - 1])));
                }
            }
            assert forall|other: Seq<char>| #[trigger]
                holds_path(more, other) <==> holds_path(paths, other) || components(other)
                    == components(path) by {
                if holds_path(paths, other) {
                    let i = choose|i: int|
                        0 <= i < paths.len() && components(#[trigger] paths[i]) == components(
                            other,
                        );
                    assert(more[i + 1] == paths[i]);
                }
                if components(other) == components(path) {
                    assert(components(more[0]) == components(other));
                }
                if holds_path(more, other) {
                    let i = choose|i: int|
                        0 <= i < more.len() && components(#[trigger] more[i]) == components(other);
                    if i > 0 {
                        assert(paths[i - 1] == more[i]);
                    }
                }
            }
        } else {
            lemma_components_order(components(path), components(paths[0]));
            assert(paths_in_order(rest)) by {
                assert forall|i: int, j: int| 0 <= i < j < rest.len() implies components_before(
                    components(#[trigger] rest[i]),
                    components(#[trigger] rest[j]),
                ) by {
                    assert(components_before(components(paths[i + 1]), components(paths[j + 1])));
                }
            }
            lemma_with_path(rest, path);
            let tail = with_path(rest, path);
            assert forall|i: int| 0 < i < more.len() implies #[trigger] more[i] == tail[i - 1] by {}
            assert(more[0] == paths[0]);
            assert forall|k: int| 0 <= k < tail.len() implies components_before(
                components(paths[0]),
                components(#[trigger] tail[k]),
            ) by {
                assert(holds_path(tail, tail[k]));
                assert(holds_path(rest, tail[k]) || components(tail[k]) == components(path));
                if holds_path(rest, tail[k]) {
                    let i = choose|i: int|
                        0 <= i < rest.len() && components(#[trigger] rest[i]) == components(
                            tail[k],
                        );
                    assert(components_before(components(paths[0]), components(paths[i + 1])));
                }
            }
            assert forall|i: int, j: int| 0 <= i < j < more.len() implies components_before(
                components(#[trigger] more[i]),
                components(#[trigger] more[j]),
            ) by {
                if i > 0 {
                    assert(components_before(components(tail[i - 1]), components(tail[j - 1])));
                } else {
                    assert(more[j] == tail[j - 1]);
                }
            }
            assert forall|other: Seq<char>| #[trigger]
                holds_path(more, other) <==> holds_path(paths, other) || components(other)
                    == components(path) by {
                assert(holds_path(tail, other) <==> holds_path(rest, other) || components(other)
                    == components(path));
                if holds_path(paths, other) {
                    let i = choose|i: int|
                        0 <= i < paths.len() && components(#[trigger] paths[i]) == components(
                            other,
                        );
                    if i == 0 {
                        assert(more[0] == paths[i]);
                    } else {
                        assert(rest[i - 1] == paths[i]);
                        assert(holds_path(rest, other));
                    }
                }
                if holds_path(tail, other) {
                    let k = choose|k: int|
                        0 <= k < tail.len() && components(#[trigger] tail[k]) == components(other);
                    assert(more[k + 1] == tail[k]);
                }
                if holds_path(more, other) {
                    let i = choose|i: int|
                        0 <= i < more.len() && components(#[trigger] more[i]) == components(other);
                    if i == 0 {
                        assert(paths[0] == more[i]);
                    } else {
                        assert(tail[i - 1] == more[i]);
                        assert(holds_path(tail, other));
                        if holds_path(rest, other) {
                            let k = choose|k: int|
                                0 <= k < rest.len() && components(#[trigger] rest[k])
                                    == components(other);
                            assert(paths[k + 1] == rest[k]);
                        }
                    }
                }
            }
        }
    }
}

/// Paths that are sorted stand in order, none of them twice, and are the paths that
/// were given: none is lost and none is added.
pub proof fn law_sorted_paths_are_those_given(paths: Seq<Seq<char>>, path: Seq<char>)
    ensures
        paths_in_order(distinct_paths(paths)),
        holds_path(distinct_paths(paths), path) <==> holds_path(paths, path),
    decreases paths.len(),
{
    if paths.len() > 0 {
        let head = paths.drop_last();
        law_sorted_paths_are_those_given(head, path);
        lemma_with_path(distinct_paths(head), paths.last());
        let last = paths.len() - 1;
        assert forall|i: int| 0 <= i < head.len() implies #[trigger] paths[i] == head[i] by {}
        if holds_path(head, path) {
            let i = choose|i: int|
                0 <= i < head.len() && components(#[trigger] head[i]) == components(path);
            assert(components(paths[i]) == components(path));
        }
        if holds_path(paths, path) {
            let i = choose|i: int|
                0 <= i < paths.len() && components(#[trigger] paths[i]) == components(path);
            if i < last {
                assert(head[i] == paths[i]);
            }
        }
        if components(path) == components(paths.last()) {
            assert(components(paths[last]) == components(path));
        }
    } else {
        assert(!holds_path(paths, path));
        assert(!holds_path(distinct_paths(paths), path));
    }
}

/// Paths are ordered part by part: a path stands before those within it, the root
/// before every name, and names by their text.
pub proof fn law_paths_are_ordered_by_parts(
    left: Seq<Seq<char>>,
    right: Seq<Seq<char>>,
    part: Seq<char>,
    other: Seq<char>,
)
    ensures
        components_before(left, left.push(part)),
        component_before(part, other) ==> components_before(left.push(part), left.push(other)),
        part != seq!['/'] ==> component_before(seq!['/'], part),
        is_plain_name(part) && part != seq!['.', '.'] && is_plain_name(other) && other != seq![
            '.',
            '.',
        ] ==> (component_before(part, other) <==> text_before(part, other)),
        left == right || components_before(left, right) || components_before(right, left),
        !(components_before(left, right) && components_before(right, left)),
    decreases left.len(),
{
    lemma_components_order(left, right);
    lemma_components_order(right, left);
    lemma_component_order(part, other);
    if is_plain_name(part) && part == seq!['/'] {
        assert(part[0] == '/');
        assert(part.contains('/'));
    }
    if is_plain_name(other) && other == seq!['/'] {
        assert(other[0] == '/');
        assert(other.contains('/'));
    }
    if left.len() > 0 {
        let rest = left.skip(1);
        law_paths_are_ordered_by_parts(rest, rest, part, other);
        assert(left.push(part).skip(1) =~= rest.push(part));
        assert(left.push(other).skip(1) =~= rest.push(other));
    }
}

proof fn lemma_with_path_adds_or_keeps(paths: Seq<Seq<char>>, path: Seq<char>, at: int)
    requires
        paths_in_order(paths),
        0 <= at < with_path(paths, path).len(),
    ensures
        paths.contains(with_path(paths, path)[at]) || (with_path(paths, path)[at] == path
            && !holds_path(paths, path)),
    decreases paths.len(),
{
    let more = with_path(paths, path);
    if paths.len() > 0 {
        let rest = paths.skip(1);
        assert forall|i: int| 0 <= i < rest.len() implies #[trigger] rest[i] == paths[i + 1] by {}
        if components(paths[0]) == components(path) {
            assert(paths[at] == more[at]);
        } else if components_before(components(path), components(paths[0])) {
            if at > 0 {
                assert(more[at] == paths[at - 1]);
            } else if holds_path(paths, path) {
                let i = choose|i: int|
                    0 <= i < paths.len() && components(#[trigger] paths[i]) == components(path);
                assert(components_before(components(paths[0]), components(paths[i])));
                lemma_components_order(components(path), components(paths[0]));
            }
        } else if at == 0 {
            assert(more[0] == paths[0]);
        } else {
            assert(paths_in_order(rest)) by {
                assert forall|i: int, j: int| 0 <= i < j < rest.len() implies components_before(
                    components(#[trigger] rest[i]),
                    components(#[trigger] rest[j]),
                ) by {
                    assert(components_before(components(paths[i + 1]), components(paths[j + 1])));
                }
            }
            lemma_with_path_adds_or_keeps(rest, path, at - 1);
            let tail = with_path(rest, path);
            assert(more[at] == tail[at - 1]);
            if rest.contains(tail[at - 1]) {
                let i = choose|i: int| 0 <= i < rest.len() && rest[i] == tail[at - 1];
                assert(paths[i + 1] == more[at]);
            } else if holds_path(paths, path) {
                let i = choose|i: int|
                    0 <= i < paths.len() && components(#[trigger] paths[i]) == components(path);
                if i > 0 {
                    assert(components(rest[i - 1]) == components(path));
                }
            }
        }
    }
}

/// Of paths that differ only in how they are written, the first stays.
pub proof fn law_first_spelling_of_a_path_stays(paths: Seq<Seq<char>>, at: int)
    requires
        0 <= at < distinct_paths(paths).len(),
    ensures
        exists|i: int|
            {
                &&& 0 <= i < paths.len()
                &&& #[trigger] paths[i] == distinct_paths(paths)[at]
                &&& !holds_path(paths.take(i), paths[i])
            },
    decreases paths.len(),
{
    let head = paths.drop_last();
    let before = distinct_paths(head);
    let kept = distinct_paths(paths)[at];
    let last = paths.len() - 1;
    law_sorted_paths_are_those_given(head, paths.last());
    lemma_with_path_adds_or_keeps(before, paths.last(), at);
    if before.contains(kept) {
        let k = choose|k: int| 0 <= k < before.len() && before[k] == kept;
        law_first_spelling_of_a_path_stays(head, k);
        let i = choose|i: int|
            {
                &&& 0 <= i < head.len()
                &&& #[trigger] head[i] == before[k]
                &&& !holds_path(head.take(i), head[i])
            };
        assert(paths[i] == head[i]);
        assert(paths.take(i) =~= head.take(i));
    } else {
        assert(paths[last] == kept);
        assert(paths.take(last) =~= head);
    }
}

} // verus!
