//! Resource subscriptions of a session and the forwarding of project events.

use crate::json::{json_strings, json_texts, no_fields, Json, JsonObject, JsonValue};
use crate::project::{concerns, ProjectEvent, ProjectId};
use crate::session::{
    event_diagnostics, event_is_readable, event_resource_uris, events_uri,
    project_events_resource_uri, status_uri, touched_resources,
};
use crate::text::{
    comes_before, copy_texts, lemma_text_before_total, lemma_text_before_transitive, same_text,
    text_before, texts,
};
use vstd::prelude::*;
use vstd::string::*;

verus! {

/// Whether texts stand in strictly ascending order.
pub open spec fn ascending(items: Seq<Seq<char>>) -> bool {
    forall|i: int, j: int|
        0 <= i < j < items.len() ==> text_before(#[trigger] items[i], #[trigger] items[j])
}

/// The resources that one session is subscribed to.
#[derive(Debug)]
pub struct ResourceSubscriptions {
    /// In ascending order.
    pub uris: Vec<String>,
    /// How many there can be.
    pub limit: usize,
}

/// Why a subscription was refused.
#[derive(Clone, Copy, Debug, PartialEq, Eq, Structural)]
pub struct SubscriptionLimit {
    pub limit: usize,
}

impl View for ResourceSubscriptions {
    type V = Set<Seq<char>>;

    open spec fn view(&self) -> Set<Seq<char>> {
        texts(self.uris@).to_set()
    }
}

proof fn lemma_ascending_insert(items: Seq<Seq<char>>, at: int, item: Seq<char>)
    requires
        ascending(items),
        0 <= at <= items.len(),
        forall|i: int| 0 <= i < at ==> text_before(#[trigger] items[i], item),
        forall|i: int| at <= i < items.len() ==> text_before(item, #[trigger] items[i]),
    ensures
        ascending(items.insert(at, item)),
        items.insert(at, item).to_set() =~= items.to_set().insert(item),
{
    let after = items.insert(at, item);
    assert forall|x: Seq<char>| after.to_set().contains(x) <==> items.to_set().insert(
        item,
    ).contains(x) by {
        if after.contains(x) {
            let i = choose|i: int| 0 <= i < after.len() && after[i] == x;
            if i < at {
                assert(items[i] == x);
            } else if i > at {
                assert(items[i - 1] == x);
            }
        }
        if items.contains(x) {
            let i = choose|i: int| 0 <= i < items.len() && items[i] == x;
            if i < at {
                assert(after[i] == x);
            } else {
                assert(after[i + 1] == x);
            }
        }
        assert(after[at] == item);
    }
}

proof fn lemma_ascending_remove(items: Seq<Seq<char>>, at: int)
    requires
        ascending(items),
        0 <= at < items.len(),
    ensures
        ascending(items.remove(at)),
        items.remove(at).to_set() =~= items.to_set().remove(items[at]),
{
    let after = items.remove(at);
    assert forall|x: Seq<char>| after.to_set().contains(x) <==> items.to_set().remove(
        items[at],
    ).contains(x) by {
        lemma_text_before_total(x, x);
        if after.contains(x) {
            let i = choose|i: int| 0 <= i < after.len() && after[i] == x;
            if i < at {
                assert(items[i] == x);
                assert(text_before(items[i], items[at]));
            } else {
                assert(items[i + 1] == x);
                assert(text_before(items[at], items[i + 1]));
            }
        }
        if items.contains(x) && x != items[at] {
            let i = choose|i: int| 0 <= i < items.len() && items[i] == x;
            if i < at {
                assert(after[i] == x);
            } else {
                assert(after[i - 1] == x);
            }
        }
    }
}

impl ResourceSubscriptions {
    /// Whether the subscriptions are kept in order and within their limit.
    pub open spec fn wf(self) -> bool {
        ascending(texts(self.uris@)) && self.uris@.len() <= self.limit
    }

    pub fn new(limit: usize) -> (subscriptions: Self)
        ensures
            subscriptions@ == Set::<Seq<char>>::empty(),
            subscriptions.limit == limit,
            subscriptions.wf(),
    {
        let subscriptions = ResourceSubscriptions { uris: Vec::new(), limit };
        assert(subscriptions@ =~= Set::empty());
        subscriptions
    }

    /// The place of a resource: where it is, or else where it belongs.
    fn place(&self, uri: &str) -> (place: (usize, bool))
        requires
            self.wf(),
        ensures
            place.0 <= self.uris@.len(),
            place.1 == self@.contains(uri@),
            place.1 ==> place.0 < self.uris@.len() && self.uris@[place.0 as int]@ == uri@,
            !place.1 ==> {
                &&& forall|i: int|
                    0 <= i < place.0 ==> text_before(#[trigger] texts(self.uris@)[i], uri@)
                &&& forall|i: int|
                    place.0 <= i < self.uris@.len() ==> text_before(
                        uri@,
                        #[trigger] texts(self.uris@)[i],
                    )
            },
    {
        let ghost all = texts(self.uris@);
        let mut i: usize = 0;
        while i < self.uris.len()
            invariant
                i <= self.uris@.len(),
                self.wf(),
                all == texts(self.uris@),
                forall|j: int| 0 <= j < i ==> text_before(#[trigger] all[j], uri@),
            decreases self.uris@.len() - i,
        {
            assert(all[i as int] == self.uris@[i as int]@);
            if same_text(self.uris[i].as_str(), uri) {
                assert(all.contains(uri@));
                return (i, true);
            }
            if comes_before(uri, self.uris[i].as_str()) {
                proof {
                    assert forall|j: int| i <= j < all.len() implies text_before(
                        uri@,
                        #[trigger] all[j],
                    ) by {
                        if j > i {
                            lemma_text_before_transitive(uri@, all[i as int], all[j]);
                        }
                    }
                    lemma_absent(all, i as int, uri@);
                }
                return (i, false);
            }
            proof {
                lemma_text_before_total(all[i as int], uri@);
            }
            i = i + 1;
        }
        proof {
            lemma_absent(all, i as int, uri@);
        }
        (i, false)
    }

    /// Subscribes to a resource; one more than the limit is refused.
    pub fn subscribe(&mut self, uri: String) -> (added: Result<(), SubscriptionLimit>)
        requires
            old(self).wf(),
        ensures
            final(self).wf(),
            final(self).limit == old(self).limit,
            if old(self)@.contains(uri@) || old(self).uris@.len() < old(self).limit {
                &&& added is Ok
                &&& final(self)@ == old(self)@.insert(uri@)
            } else {
                &&& added == Err::<(), SubscriptionLimit>(
                    SubscriptionLimit { limit: old(self).limit },
                )
                &&& final(self)@ == old(self)@
            },
    {
        let (at, found) = self.place(uri.as_str());
        if found {
            assert(self@.insert(uri@) =~= self@);
            return Ok(());
        }
        if self.uris.len() >= self.limit {
            return Err(SubscriptionLimit { limit: self.limit });
        }
        let ghost before = texts(self.uris@);
        proof {
            lemma_ascending_insert(before, at as int, uri@);
        }
        self.uris.insert(at, uri);
        assert(texts(self.uris@) =~= before.insert(at as int, uri@));
        Ok(())
    }

    /// Ends a subscription, and says whether there was one.
    pub fn unsubscribe(&mut self, uri: &str) -> (removed: bool)
        requires
            old(self).wf(),
        ensures
            final(self).wf(),
            final(self).limit == old(self).limit,
            removed == old(self)@.contains(uri@),
            final(self)@ == old(self)@.remove(uri@),
    {
        let (at, found) = self.place(uri);
        if !found {
            assert(self@.remove(uri@) =~= self@);
            return false;
        }
        let ghost before = texts(self.uris@);
        proof {
            lemma_ascending_remove(before, at as int);
        }
        let _ = self.uris.remove(at);
        assert(texts(self.uris@) =~= before.remove(at as int));
        true
    }

    pub fn contains(&self, uri: &str) -> (subscribed: bool)
        requires
            self.wf(),
        ensures
            subscribed == self@.contains(uri@),
    {
        self.place(uri).1
    }

    /// The subscriptions in ascending order.
    pub fn sorted_snapshot(&self) -> (uris: Vec<String>)
        requires
            self.wf(),
        ensures
            ascending(texts(uris@)),
            texts(uris@).to_set() == self@,
    {
        copy_texts(&self.uris)
    }
}

proof fn lemma_absent(items: Seq<Seq<char>>, at: int, item: Seq<char>)
    requires
        0 <= at <= items.len(),
        forall|i: int| 0 <= i < at ==> text_before(#[trigger] items[i], item),
        forall|i: int| at <= i < items.len() ==> text_before(item, #[trigger] items[i]),
    ensures
        !items.contains(item),
{
    lemma_text_before_total(item, item);
}

/// The answer to a request for the session's subscriptions.
pub fn subscription_list(subscriptions: &ResourceSubscriptions) -> (json: JsonValue)
    requires
        subscriptions.wf(),
    ensures
        json@ == Json::Object(
            no_fields().push(("subscriptions"@, json_texts(texts(subscriptions.uris@)))),
        ),
{
    let mut fields = JsonObject::new();
    let uris = subscriptions.sorted_snapshot();
    proof {
        lemma_ascending_is_unique(texts(uris@), texts(subscriptions.uris@));
    }
    fields.put("subscriptions", json_strings(&uris));
    fields.into_value()
}

/// Ascending sequences with the same members are the same.
pub proof fn lemma_ascending_is_unique(left: Seq<Seq<char>>, right: Seq<Seq<char>>)
    requires
        ascending(left),
        ascending(right),
        left.to_set() == right.to_set(),
    ensures
        left == right,
    decreases left.len(),
{
    assert forall|x: Seq<char>| left.contains(x) <==> right.contains(x) by {
        assert(left.to_set().contains(x) <==> right.to_set().contains(x));
    }
    if left.len() == 0 {
        if right.len() > 0 {
            assert(right.contains(right[0]));
        }
        assert(left =~= right);
    } else {
        assert(left.contains(left[left.len() - 1]));
        let last = left.len() - 1;
        let i = choose|i: int| 0 <= i < right.len() && right[i] == left[last];
        let end = right.len() - 1;
        assert(right.contains(right[end]));
        let j = choose|j: int| 0 <= j < left.len() && left[j] == right[end];
        if i < end {
            assert(text_before(right[i], right[end]));
            if j < last {
                assert(text_before(left[j], left[last]));
                lemma_text_before_transitive(left[last], left[j], left[last]);
            }
            lemma_text_before_total(left[last], left[last]);
        }
        assert(right[end] == left[last]);
        let a = left.remove(last);
        let b = right.remove(end);
        lemma_ascending_remove(left, last);
        lemma_ascending_remove(right, end);
        lemma_ascending_is_unique(a, b);
        assert(left =~= a.push(left[last]));
        assert(right =~= b.push(right[end]));
    }
}

/// A resource that is watched for a project.
#[derive(Debug)]
pub struct WatchedResource {
    pub project_id: ProjectId,
    pub uri: String,
}

/// The subscribed resources of each project, by which the forwarding of its
/// events ends.
#[derive(Debug)]
pub struct SessionEventSink {
    pub watched: Vec<WatchedResource>,
}

pub open spec fn watched_pairs(watched: Seq<WatchedResource>) -> Seq<(Seq<char>, Seq<char>)> {
    Seq::new(watched.len(), |i: int| (watched[i].project_id@, watched[i].uri@))
}

impl View for SessionEventSink {
    type V = Set<(Seq<char>, Seq<char>)>;

    open spec fn view(&self) -> Set<(Seq<char>, Seq<char>)> {
        watched_pairs(self.watched@).to_set()
    }
}

/// Whether some resource of a project is watched.
pub open spec fn is_watched(watched: Set<(Seq<char>, Seq<char>)>, project: Seq<char>) -> bool {
    exists|uri: Seq<char>| watched.contains((project, uri))
}

/// The watched resources without one resource.
pub open spec fn without_uri(
    watched: Set<(Seq<char>, Seq<char>)>,
    uri: Seq<char>,
) -> Set<(Seq<char>, Seq<char>)> {
    watched.filter(|pair: (Seq<char>, Seq<char>)| pair.1 != uri)
}

/// The watched resources without those of one project.
pub open spec fn without_project(
    watched: Set<(Seq<char>, Seq<char>)>,
    project: Seq<char>,
) -> Set<(Seq<char>, Seq<char>)> {
    watched.filter(|pair: (Seq<char>, Seq<char>)| pair.0 != project)
}

pub open spec fn project_texts(projects: Seq<ProjectId>) -> Seq<Seq<char>> {
    Seq::new(projects.len(), |i: int| projects[i]@)
}

pub(crate) fn holds_project(projects: &Vec<ProjectId>, project_id: &ProjectId) -> (found: bool)
    ensures
        found == project_texts(projects@).contains(project_id@),
{
    let ghost all = project_texts(projects@);
    let mut i: usize = 0;
    while i < projects.len()
        invariant
            i <= projects@.len(),
            all == project_texts(projects@),
            forall|j: int| 0 <= j < i ==> all[j] != project_id@,
        decreases projects@.len() - i,
    {
        assert(all[i as int] == projects@[i as int]@);
        if projects[i].same(project_id) {
            return true;
        }
        i = i + 1;
    }
    false
}

fn holds_uri(uris: &Vec<String>, uri: &str) -> (found: bool)
    ensures
        found == texts(uris@).contains(uri@),
{
    let ghost all = texts(uris@);
    let mut i: usize = 0;
    while i < uris.len()
        invariant
            i <= uris@.len(),
            all == texts(uris@),
            forall|j: int| 0 <= j < i ==> all[j] != uri@,
        decreases uris@.len() - i,
    {
        assert(all[i as int] == uris@[i as int]@);
        if same_text(uris[i].as_str(), uri) {
            return true;
        }
        i = i + 1;
    }
    false
}

impl SessionEventSink {
    pub fn new() -> (sink: Self)
        ensures
            sink@ == Set::<(Seq<char>, Seq<char>)>::empty(),
    {
        let sink = SessionEventSink { watched: Vec::new() };
        assert(sink@ =~= Set::empty());
        sink
    }

    fn holds(&self, project_id: &ProjectId, uri: &str) -> (found: bool)
        ensures
            found == self@.contains((project_id@, uri@)),
    {
        let ghost all = watched_pairs(self.watched@);
        let mut i: usize = 0;
        while i < self.watched.len()
            invariant
                i <= self.watched@.len(),
                all == watched_pairs(self.watched@),
                forall|j: int| 0 <= j < i ==> all[j] != (project_id@, uri@),
            decreases self.watched@.len() - i,
        {
            let item = &self.watched[i];
            assert(all[i as int] == (item.project_id@, item.uri@));
            if item.project_id.same(project_id) && same_text(item.uri.as_str(), uri) {
                assert(all.contains((project_id@, uri@)));
                return true;
            }
            i = i + 1;
        }
        false
    }

    fn tracks(&self, project_id: &ProjectId) -> (found: bool)
        ensures
            found == is_watched(self@, project_id@),
    {
        let ghost all = watched_pairs(self.watched@);
        let mut i: usize = 0;
        while i < self.watched.len()
            invariant
                i <= self.watched@.len(),
                all == watched_pairs(self.watched@),
                forall|j: int| 0 <= j < i ==> (#[trigger] all[j]).0 != project_id@,
            decreases self.watched@.len() - i,
        {
            let item = &self.watched[i];
            assert(all[i as int] == (item.project_id@, item.uri@));
            if item.project_id.same(project_id) {
                assert(all.contains((project_id@, item.uri@)));
                assert(self@.contains((project_id@, item.uri@)));
                return true;
            }
            i = i + 1;
        }
        false
    }

    /// Tracks a subscribed resource of a project.
    pub fn track_subscription(&mut self, project_id: ProjectId, uri: String)
        ensures
            final(self)@ == old(self)@.insert((project_id@, uri@)),
    {
        let ghost pair = (project_id@, uri@);
        if self.holds(&project_id, uri.as_str()) {
            assert(self@.insert(pair) =~= self@);
            return ;
        }
        let ghost before = watched_pairs(self.watched@);
        self.watched.push(WatchedResource { project_id, uri });
        let ghost after = watched_pairs(self.watched@);
        proof {
            assert(after =~= before.push(pair));
            assert forall|x: (Seq<char>, Seq<char>)|
                after.to_set().contains(x) <==> before.to_set().insert(pair).contains(x) by {
                if after.contains(x) {
                    let i = choose|i: int| 0 <= i < after.len() && after[i] == x;
                    if i < before.len() {
                        assert(before[i] == x);
                    }
                }
                if before.contains(x) {
                    let i = choose|i: int| 0 <= i < before.len() && before[i] == x;
                    assert(after[i] == x);
                }
                assert(after[before.len() as int] == pair);
            }
            assert(self@ =~= old(self)@.insert(pair));
        }
    }

    /// Stops tracking a resource. The projects that have none left are returned,
    /// each once: nothing of them is to be forwarded any more.
    pub fn untrack_subscription(&mut self, uri: &str) -> (emptied: Vec<ProjectId>)
        ensures
            final(self)@ == without_uri(old(self)@, uri@),
            project_texts(emptied@).no_duplicates(),
            forall|project: Seq<char>| #[trigger]
                project_texts(emptied@).contains(project) <==> old(self)@.contains(
                    (project, uri@),
                ) && !is_watched(final(self)@, project),
    {
        let ghost all = watched_pairs(self.watched@);
        let mut kept = SessionEventSink { watched: Vec::new() };
        let mut touched: Vec<ProjectId> = Vec::new();
        let mut i: usize = 0;
        assert(all.take(0) =~= Seq::<(Seq<char>, Seq<char>)>::empty());
        assert(kept@ =~= without_uri(all.take(0).to_set(), uri@));
        while i < self.watched.len()
            invariant
                i <= self.watched@.len(),
                *self == *old(self),
                all == watched_pairs(self.watched@),
                kept@ == without_uri(all.take(i as int).to_set(), uri@),
                project_texts(touched@).no_duplicates(),
                forall|project: Seq<char>| #[trigger]
                    project_texts(touched@).contains(project) <==> all.take(i as int).contains(
                        (project, uri@),
                    ),
            decreases self.watched@.len() - i,
        {
            let item = &self.watched[i];
            let ghost pair = (item.project_id@, item.uri@);
            let ghost head = all.take(i as int);
            let ghost next = all.take(i + 1);
            proof {
                assert(all[i as int] == pair);
                assert(next =~= head.push(pair));
                lemma_push_contains(head, pair);
            }
            if same_text(item.uri.as_str(), uri) {
                assert(without_uri(next.to_set(), uri@) =~= without_uri(head.to_set(), uri@));
                let ghost before = project_texts(touched@);
                if !holds_project(&touched, &item.project_id) {
                    touched.push(item.project_id.clone());
                    proof {
                        let after = project_texts(touched@);
                        assert(after =~= before.push(item.project_id@));
                        lemma_push_text(before, item.project_id@);
                    }
                }
            } else {
                kept.track_subscription(item.project_id.clone(), item.uri.clone());
                assert(without_uri(next.to_set(), uri@) =~= without_uri(
                    head.to_set(),
                    uri@,
                ).insert(pair));
            }
            i = i + 1;
        }
        assert(all.take(i as int) =~= all);
        let mut emptied: Vec<ProjectId> = Vec::new();
        let ghost named = project_texts(touched@);
        let mut k: usize = 0;
        assert(named.take(0) =~= Seq::<Seq<char>>::empty());
        assert(project_texts(emptied@) =~= Seq::<Seq<char>>::empty());
        while k < touched.len()
            invariant
                k <= touched@.len(),
                named == project_texts(touched@),
                named.no_duplicates(),
                project_texts(emptied@).no_duplicates(),
                forall|project: Seq<char>| #[trigger]
                    project_texts(emptied@).contains(project) <==> named.take(k as int).contains(
                        project,
                    ) && !is_watched(kept@, project),
            decreases touched@.len() - k,
        {
            let ghost head = named.take(k as int);
            let ghost next = named.take(k + 1);
            let ghost before = project_texts(emptied@);
            let ghost project = touched@[k as int]@;
            proof {
                assert(named[k as int] == project);
                assert(next =~= head.push(project));
                lemma_push_text(head, project);
                assert(!head.contains(project)) by {
                    if head.contains(project) {
                        let i = choose|i: int| 0 <= i < head.len() && head[i] == project;
                        assert(named[i] == named[k as int]);
                    }
                }
            }
            if !kept.tracks(&touched[k]) {
                emptied.push(touched[k].clone());
                proof {
                    assert(project_texts(emptied@) =~= before.push(project));
                    lemma_push_text(before, project);
                }
            }
            k = k + 1;
        }
        assert(named.take(k as int) =~= named);
        self.watched = kept.watched;
        emptied
    }

    /// Stops tracking every resource of a project and returns them, each once.
    pub fn remove_project(&mut self, project_id: &ProjectId) -> (uris: Vec<String>)
        ensures
            final(self)@ == without_project(old(self)@, project_id@),
            texts(uris@).no_duplicates(),
            forall|uri: Seq<char>| #[trigger]
                texts(uris@).contains(uri) <==> old(self)@.contains((project_id@, uri)),
    {
        let ghost all = watched_pairs(self.watched@);
        let mut kept = SessionEventSink { watched: Vec::new() };
        let mut uris: Vec<String> = Vec::new();
        let mut i: usize = 0;
        assert(all.take(0) =~= Seq::<(Seq<char>, Seq<char>)>::empty());
        assert(kept@ =~= without_project(all.take(0).to_set(), project_id@));
        while i < self.watched.len()
            invariant
                i <= self.watched@.len(),
                *self == *old(self),
                all == watched_pairs(self.watched@),
                kept@ == without_project(all.take(i as int).to_set(), project_id@),
                texts(uris@).no_duplicates(),
                forall|uri: Seq<char>| #[trigger]
                    texts(uris@).contains(uri) <==> all.take(i as int).contains(
                        (project_id@, uri),
                    ),
            decreases self.watched@.len() - i,
        {
            let item = &self.watched[i];
            let ghost pair = (item.project_id@, item.uri@);
            let ghost head = all.take(i as int);
            let ghost next = all.take(i + 1);
            proof {
                assert(all[i as int] == pair);
                assert(next =~= head.push(pair));
                lemma_push_contains(head, pair);
            }
            if item.project_id.same(project_id) {
                assert(without_project(next.to_set(), project_id@) =~= without_project(
                    head.to_set(),
                    project_id@,
                ));
                let ghost before = texts(uris@);
                if !holds_uri(&uris, item.uri.as_str()) {
                    uris.push(item.uri.clone());
                    proof {
                        assert(texts(uris@) =~= before.push(item.uri@));
                        lemma_push_text(before, item.uri@);
                    }
                }
            } else {
                kept.track_subscription(item.project_id.clone(), item.uri.clone());
                assert(without_project(next.to_set(), project_id@) =~= without_project(
                    head.to_set(),
                    project_id@,
                ).insert(pair));
            }
            i = i + 1;
        }
        assert(all.take(i as int) =~= all);
        self.watched = kept.watched;
        uris
    }
}

proof fn lemma_push_contains(items: Seq<(Seq<char>, Seq<char>)>, item: (Seq<char>, Seq<char>))
    ensures
        forall|x: (Seq<char>, Seq<char>)| #[trigger]
            items.push(item).contains(x) <==> x == item || items.contains(x),
{
    let after = items.push(item);
    assert forall|x: (Seq<char>, Seq<char>)| #[trigger] after.contains(x) <==> x == item
        || items.contains(x) by {
        if after.contains(x) {
            let i = choose|i: int| 0 <= i < after.len() && after[i] == x;
            if i < items.len() {
                assert(items[i] == x);
            }
        }
        if items.contains(x) {
            let i = choose|i: int| 0 <= i < items.len() && items[i] == x;
            assert(after[i] == x);
        }
        assert(after[items.len() as int] == item);
    }
}

proof fn lemma_push_text(items: Seq<Seq<char>>, item: Seq<char>)
    ensures
        forall|x: Seq<char>| #[trigger]
            items.push(item).contains(x) <==> x == item || items.contains(x),
        items.no_duplicates() && !items.contains(item) ==> items.push(item).no_duplicates(),
{
    let after = items.push(item);
    assert forall|x: Seq<char>| #[trigger] after.contains(x) <==> x == item || items.contains(
        x,
    ) by {
        if after.contains(x) {
            let i = choose|i: int| 0 <= i < after.len() && after[i] == x;
            if i < items.len() {
                assert(items[i] == x);
            }
        }
        if items.contains(x) {
            let i = choose|i: int| 0 <= i < items.len() && items[i] == x;
            assert(after[i] == x);
        }
        assert(after[items.len() as int] == item);
    }
    if items.no_duplicates() && !items.contains(item) {
        assert forall|i: int, j: int|
            0 <= i < after.len() && 0 <= j < after.len() && i != j implies after[i]
            != after[j] by {
            if i < items.len() {
                assert(items.contains(items[i]));
            }
            if j < items.len() {
                assert(items.contains(items[j]));
            }
        }
    }
}

/// What a session's event queue holds: an event, or a gap in the events.
#[derive(Debug)]
pub enum QueuedEvent {
    Event(ProjectEvent),
    Lagged { skipped: u64 },
}

/// Whether a session's forwarding goes on.
#[derive(Clone, Copy, Debug, PartialEq, Eq, Structural)]
pub enum ForwardOutcome {
    Continue,
    Disconnect,
}

/// Whether the URI parser can take what a queued event carries.
pub open spec fn queued_is_readable(queued: QueuedEvent) -> bool {
    match queued {
        QueuedEvent::Event(event) => event_is_readable(event),
        QueuedEvent::Lagged { .. } => true,
    }
}

/// The resources that a queued event updates, in the order of their
/// notifications; after a gap a session is told to poll the project's events.
pub open spec fn updated_resources(project: Seq<char>, queued: QueuedEvent) -> Seq<Seq<char>> {
    match queued {
        QueuedEvent::Event(event) => touched_resources(project, event, event_diagnostics(event)),
        QueuedEvent::Lagged { .. } => seq![events_uri(project)],
    }
}

/// Whether a queued event says that the project was removed.
pub open spec fn removes(project: Seq<char>, queued: QueuedEvent) -> bool {
    match queued {
        QueuedEvent::Event(event) => event is ProjectRemoved && concerns(event, project),
        QueuedEvent::Lagged { .. } => false,
    }
}

/// The forwarding of one queued event: the resources that are still to be
/// notified, and how far the session got.
#[derive(Debug)]
pub struct Forwarding {
    pub uris: Vec<String>,
    pub next: usize,
    pub outcome: ForwardOutcome,
    /// Whether the forwarding of the project ends with this event.
    pub removed: bool,
}

impl Forwarding {
    pub open spec fn wf(self) -> bool {
        self.next <= self.uris@.len()
    }

    /// The resources that are still to be notified.
    pub open spec fn pending(self) -> Seq<Seq<char>> {
        texts(self.uris@).skip(self.next as int)
    }

    /// Begins to forward a queued event of a project.
    pub fn start(project_id: &ProjectId, queued: &QueuedEvent) -> (forwarding: Self)
        requires
            queued_is_readable(*queued),
        ensures
            forwarding.wf(),
            forwarding.pending() == updated_resources(project_id@, *queued),
            forwarding.outcome == ForwardOutcome::Continue,
            forwarding.removed == removes(project_id@, *queued),
    {
        match queued {
            QueuedEvent::Event(event) => {
                let uris = event_resource_uris(project_id, event);
                let removal = match event {
                    ProjectEvent::ProjectRemoved { .. } => true,
                    _ => false,
                };
                assert(texts(uris@).skip(0) =~= texts(uris@));
                Forwarding {
                    uris,
                    next: 0,
                    outcome: ForwardOutcome::Continue,
                    removed: removal && event.belongs_to(project_id),
                }
            },
            QueuedEvent::Lagged { .. } => {
                let mut uris: Vec<String> = Vec::new();
                uris.push(project_events_resource_uri(project_id));
                assert(texts(uris@).skip(0) =~= seq![events_uri(project_id@)]);
                Forwarding { uris, next: 0, outcome: ForwardOutcome::Continue, removed: false }
            },
        }
    }

    /// The next resource that the session is told about: one that it is
    /// subscribed to. Resources in front of it that it is not subscribed to are
    /// passed over.
    pub fn next_notification(&mut self, subscriptions: &ResourceSubscriptions) -> (uri: Option<
        String,
    >)
        requires
            old(self).wf(),
            subscriptions.wf(),
        ensures
            final(self).wf(),
            final(self).outcome == old(self).outcome,
            final(self).removed == old(self).removed,
            match uri {
                Some(uri) => {
                    &&& old(self).outcome == ForwardOutcome::Continue
                    &&& subscriptions@.contains(uri@)
                    &&& exists|passed: int|
                        {
                            &&& 0 <= passed < old(self).pending().len()
                            &&& #[trigger] old(self).pending()[passed] == uri@
                            &&& none_subscribed(old(self).pending().take(passed), subscriptions@)
                            &&& final(self).pending() == old(self).pending().skip(passed + 1)
                        }
                },
                None => {
                    ||| old(self).outcome == ForwardOutcome::Disconnect
                    ||| final(self).pending().len() == 0 && none_subscribed(
                        old(self).pending(),
                        subscriptions@,
                    )
                },
            },
    {
        match self.outcome {
            ForwardOutcome::Disconnect => {
                return None;
            },
            ForwardOutcome::Continue => {},
        }
        let ghost first = self.next as int;
        let ghost all = texts(self.uris@);
        let ghost waiting = self.pending();
        while self.next < self.uris.len()
            invariant
                self.next <= self.uris@.len(),
                first <= self.next,
                subscriptions.wf(),
                self.uris == old(self).uris,
                self.outcome == old(self).outcome,
                self.removed == old(self).removed,
                old(self).outcome == ForwardOutcome::Continue,
                first == old(self).next,
                all == texts(self.uris@),
                waiting == all.skip(first),
                waiting == old(self).pending(),
                none_subscribed(waiting.take(self.next - first), subscriptions@),
            decreases self.uris@.len() - self.next,
        {
            let at = self.next;
            self.next = at + 1;
            let ghost passed = at - first;
            assert(waiting[passed] == self.uris@[at as int]@);
            if subscriptions.contains(self.uris[at].as_str()) {
                let uri = self.uris[at].clone();
                assert(old(self).pending()[passed] == uri@);
                assert(self.pending() =~= waiting.skip(passed + 1));
                return Some(uri);
            }
            assert(none_subscribed(waiting.take(passed + 1), subscriptions@)) by {
                assert forall|i: int| 0 <= i < passed + 1 implies !subscriptions@.contains(
                    #[trigger] waiting.take(passed + 1)[i],
                ) by {
                    if i < passed {
                        assert(waiting.take(passed)[i] == waiting[i]);
                    }
                }
            }
        }
        assert(waiting.take(self.next - first) =~= waiting);
        None
    }

    /// Takes up whether the last notification was delivered; a session that
    /// cannot be reached is told nothing more.
    pub fn notified(&mut self, delivered: bool)
        ensures
            final(self).uris == old(self).uris,
            final(self).next == old(self).next,
            final(self).removed == old(self).removed,
            final(self).outcome == if delivered {
                old(self).outcome
            } else {
                ForwardOutcome::Disconnect
            },
    {
        if !delivered {
            self.outcome = ForwardOutcome::Disconnect;
        }
    }

    /// Whether the session's forwarding for the project ends here.
    pub fn ends(&self) -> (ends: bool)
        ensures
            ends == (self.removed || self.outcome == ForwardOutcome::Disconnect),
    {
        match self.outcome {
            ForwardOutcome::Disconnect => true,
            ForwardOutcome::Continue => self.removed,
        }
    }
}

/// Whether none of some resources is subscribed to.
pub open spec fn none_subscribed(
    uris: Seq<Seq<char>>,
    subscriptions: Set<Seq<char>>,
) -> bool {
    forall|i: int| 0 <= i < uris.len() ==> !subscriptions.contains(#[trigger] uris[i])
}

/// Whether a project's events are to be forwarded by a new task: there is no
/// task for it, or the one there was has finished.
pub fn starts_forwarding(task_finished: Option<bool>) -> (starts: bool)
    ensures
        starts == (task_finished != Some(false)),
{
    match task_finished {
        Some(finished) => finished,
        None => true,
    }
}

/// The subscriptions that end with the removal of a project: its watched
/// resources, or what the removal touches where none is watched.
pub open spec fn ended_by_removal(
    watched: Set<(Seq<char>, Seq<char>)>,
    project: Seq<char>,
    event: ProjectEvent,
    uri: Seq<char>,
) -> bool {
    if is_watched(watched, project) {
        watched.contains((project, uri))
    } else {
        touched_resources(project, event, event_diagnostics(event)).contains(uri)
    }
}

/// Ends the subscriptions of a removed project.
pub fn cleanup_removed_project_subscriptions(
    subscriptions: &mut ResourceSubscriptions,
    sink: &mut SessionEventSink,
    project_id: &ProjectId,
    event: &ProjectEvent,
)
    requires
        old(subscriptions).wf(),
        event_is_readable(*event),
    ensures
        final(subscriptions).wf(),
        final(subscriptions).limit == old(subscriptions).limit,
        final(sink)@ == without_project(old(sink)@, project_id@),
        forall|uri: Seq<char>| #[trigger]
            final(subscriptions)@.contains(uri) <==> old(subscriptions)@.contains(uri)
                && !ended_by_removal(old(sink)@, project_id@, *event, uri),
{
    let watched = sink.remove_project(project_id);
    proof {
        let uris = texts(watched@);
        if watched@.len() > 0 {
            assert(uris.contains(uris[0]));
            assert(old(sink)@.contains((project_id@, uris[0])));
        } else if is_watched(old(sink)@, project_id@) {
            let uri = choose|uri: Seq<char>| old(sink)@.contains((project_id@, uri));
            assert(uris.contains(uri));
        }
    }
    if watched.len() > 0 {
        unsubscribe_all(subscriptions, &watched);
    } else {
        let touched = event_resource_uris(project_id, event);
        unsubscribe_all(subscriptions, &touched);
    }
}

fn unsubscribe_all(subscriptions: &mut ResourceSubscriptions, uris: &Vec<String>)
    requires
        old(subscriptions).wf(),
    ensures
        final(subscriptions).wf(),
        final(subscriptions).limit == old(subscriptions).limit,
        forall|uri: Seq<char>| #[trigger]
            final(subscriptions)@.contains(uri) <==> old(subscriptions)@.contains(uri) && !texts(
                uris@,
            ).contains(uri),
{
    let ghost all = texts(uris@);
    let mut i: usize = 0;
    assert(all.take(0) =~= Seq::<Seq<char>>::empty());
    while i < uris.len()
        invariant
            i <= uris@.len(),
            all == texts(uris@),
            subscriptions.wf(),
            subscriptions.limit == old(subscriptions).limit,
            forall|uri: Seq<char>| #[trigger]
                subscriptions@.contains(uri) <==> old(subscriptions)@.contains(uri) && !all.take(
                    i as int,
                ).contains(uri),
        decreases uris@.len() - i,
    {
        proof {
            assert(all.take(i + 1) =~= all.take(i as int).push(all[i as int]));
            lemma_push_text(all.take(i as int), all[i as int]);
        }
        let _ = subscriptions.unsubscribe(uris[i].as_str());
        i = i + 1;
    }
    assert(all.take(i as int) =~= all);
}

/// A removed project leaves nothing behind, and takes nothing that is watched
/// for another project alone.
pub proof fn law_removal_is_local(
    watched: Set<(Seq<char>, Seq<char>)>,
    project: Seq<char>,
    other: Seq<char>,
    event: ProjectEvent,
    uri: Seq<char>,
)
    requires
        other != project,
        watched.contains((other, uri)),
        is_watched(watched, project),
        !watched.contains((project, uri)),
    ensures
        !is_watched(without_project(watched, project), project),
        without_project(watched, project).contains((other, uri)),
        !ended_by_removal(watched, project, event, uri),
{
    if is_watched(without_project(watched, project), project) {
        let found = choose|found: Seq<char>|
            without_project(watched, project).contains((project, found));
        assert(false);
    }
}

/// What is subscribed twice and unsubscribed once is no longer subscribed.
pub proof fn law_subscriptions_are_a_set(subscribed: Set<Seq<char>>, uri: Seq<char>)
    ensures
        subscribed.insert(uri).insert(uri) =~= subscribed.insert(uri),
        !subscribed.insert(uri).insert(uri).remove(uri).contains(uri),
{
}

/// Watching a resource and no longer watching it leaves every other resource as
/// it was.
pub proof fn law_unwatching_undoes_watching(
    watched: Set<(Seq<char>, Seq<char>)>,
    project: Seq<char>,
    uri: Seq<char>,
)
    requires
        forall|other: Seq<char>| !watched.contains((other, uri)),
    ensures
        without_uri(watched.insert((project, uri)), uri) =~= watched,
{
    assert forall|pair: (Seq<char>, Seq<char>)|
        without_uri(watched.insert((project, uri)), uri).contains(pair) <==> watched.contains(
            pair,
        ) by {
        if watched.contains(pair) {
            assert(!watched.contains((pair.0, uri)));
        }
    }
}

/// A session that is subscribed to the events of a project is told of every
/// event that concerns the project, and of every gap.
pub proof fn law_events_are_always_announced(project: Seq<char>, queued: QueuedEvent)
    ensures
        match queued {
            QueuedEvent::Event(event) => concerns(event, project) ==> updated_resources(
                project,
                queued,
            ).contains(events_uri(project)),
            QueuedEvent::Lagged { .. } => updated_resources(project, queued).contains(
                events_uri(project),
            ),
        },
{
    let updated = updated_resources(project, queued);
    if updated.len() > 0 {
        assert(updated.contains(updated[0]));
    }
}

/// A removal concerns the removed project alone: no other project's session is
/// told of it.
pub proof fn law_removal_of_another_project_is_silent(project: Seq<char>, event: ProjectEvent)
    requires
        event is ProjectRemoved,
        !concerns(event, project),
    ensures
        updated_resources(project, QueuedEvent::Event(event)).len() == 0,
        !removes(project, QueuedEvent::Event(event)),
{
}

/// A session that fell behind hears of the events alone, and so can read what it
/// missed. Only the removal of the project itself ends the forwarding.
pub proof fn law_lagging_session_hears_of_the_events(project: Seq<char>, skipped: u64)
    ensures
        updated_resources(project, QueuedEvent::Lagged { skipped }) == seq![events_uri(project)],
        !removes(project, QueuedEvent::Lagged { skipped }),
{
}

/// An event updates what it touches, and ends the forwarding exactly where it removes
/// this project.
pub proof fn law_event_updates_what_it_touches(project: Seq<char>, event: ProjectEvent)
    ensures
        updated_resources(project, QueuedEvent::Event(event)) == touched_resources(
            project,
            event,
            event_diagnostics(event),
        ),
        removes(project, QueuedEvent::Event(event)) <==> (
        event matches ProjectEvent::ProjectRemoved { project_id, .. } && project_id@ == project),
{
}

/// What a session watches is let go by its reference, for every project, or by its
/// project, for every reference, and nothing else is let go.
pub proof fn law_watching_ends_for_one_thing(
    watched: Set<(Seq<char>, Seq<char>)>,
    project: Seq<char>,
    uri: Seq<char>,
    named: (Seq<char>, Seq<char>),
)
    ensures
        without_uri(watched, uri).contains(named) <==> watched.contains(named) && named.1 != uri,
        without_project(watched, project).contains(named) <==> watched.contains(named) && named.0
            != project,
        is_watched(watched.insert((project, uri)), project),
        !is_watched(without_project(watched, project), project),
{
    assert(watched.insert((project, uri)).contains((project, uri)));
}

/// The removal of a project ends the subscriptions that were watched for it. Where none
/// was, it ends those that the removal touches.
pub proof fn law_removal_ends_what_was_watched(
    watched: Set<(Seq<char>, Seq<char>)>,
    project: Seq<char>,
    event: ProjectEvent,
    uri: Seq<char>,
)
    ensures
        is_watched(watched, project) ==> (ended_by_removal(watched, project, event, uri)
            <==> watched.contains((project, uri))),
        !is_watched(watched, project) && (event matches ProjectEvent::ProjectRemoved {
            project_id,
            ..
        } && project_id@ == project) ==> (ended_by_removal(watched, project, event, uri) <==> uri
            == events_uri(project) || uri == status_uri(project)),
{
    if event matches ProjectEvent::ProjectRemoved { project_id, .. } && project_id@ == project {
        let touched = touched_resources(project, event, event_diagnostics(event));
        assert(touched =~= seq![events_uri(project), status_uri(project)]);
        assert(touched[0] == events_uri(project));
        assert(touched[1] == status_uri(project));
        assert(touched.contains(uri) <==> uri == events_uri(project) || uri == status_uri(
            project,
        ));
    }
}

/// A list of references is passed over exactly where nothing on it is subscribed to.
pub proof fn law_passed_references_are_not_subscribed(
    uris: Seq<Seq<char>>,
    subscriptions: Set<Seq<char>>,
)
    ensures
        none_subscribed(uris, subscriptions) <==> forall|uri: Seq<char>|
            uris.contains(uri) ==> !#[trigger] subscriptions.contains(uri),
{
    if none_subscribed(uris, subscriptions) {
        assert forall|uri: Seq<char>| uris.contains(uri) implies !#[trigger] subscriptions.contains(
            uri,
        ) by {
            let i = choose|i: int| 0 <= i < uris.len() && uris[i] == uri;
            assert(!subscriptions.contains(uris[i]));
        }
    } else {
        let i = choose|i: int| 0 <= i < uris.len() && subscriptions.contains(#[trigger] uris[i]);
        assert(uris.contains(uris[i]));
    }
}

} // verus!
