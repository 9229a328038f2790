//! Per-session state: edit plan ownership, pending approvals and what the
//! client can do.

use crate::project::PlanId;
use crate::text::{same_text, texts};
use vstd::prelude::*;
use vstd::string::*;

verus! {

/// Finished plans that a session still recognizes.
pub const MAX_CLAIMED_PLAN_IDS: usize = 256;

/// The edit plans of one session: previewed, being applied, and finished.
#[derive(Debug)]
pub struct SessionEditPlans {
    pub owned: Vec<PlanId>,
    pub active: Vec<PlanId>,
    pub terminal: Vec<PlanId>,
}

/// The model of the edit plans of a session; finished plans are ordered by when
/// they finished.
#[verifier::ext_equal]
pub struct PlansModel {
    pub owned: Set<Seq<char>>,
    pub active: Set<Seq<char>>,
    pub terminal: Seq<Seq<char>>,
}

pub open spec fn plan_texts(plans: Seq<PlanId>) -> Seq<Seq<char>> {
    Seq::new(plans.len(), |i: int| plans[i]@)
}

impl View for SessionEditPlans {
    type V = PlansModel;

    open spec fn view(&self) -> PlansModel {
        PlansModel {
            owned: plan_texts(self.owned@).to_set(),
            active: plan_texts(self.active@).to_set(),
            terminal: plan_texts(self.terminal@),
        }
    }
}

/// A sequence without the occurrences of one text.
pub open spec fn without(items: Seq<Seq<char>>, item: Seq<char>) -> Seq<Seq<char>>
    decreases items.len(),
{
    if items.len() == 0 {
        seq![]
    } else {
        let head = without(items.drop_last(), item);
        if items.last() == item {
            head
        } else {
            head.push(items.last())
        }
    }
}

pub proof fn lemma_without(items: Seq<Seq<char>>, item: Seq<char>)
    ensures
        without(items, item).len() <= items.len(),
        forall|x: Seq<char>|
            #[trigger] without(items, item).contains(x) <==> items.contains(x) && x != item,
        without(items, item).to_set() =~= items.to_set().remove(item),
        items.no_duplicates() ==> without(items, item).no_duplicates(),
    decreases items.len(),
{
    if items.len() > 0 {
        let head = items.drop_last();
        let last = items.last();
        lemma_without(head, item);
        let kept = without(head, item);
        let all = without(items, item);
        assert forall|x: Seq<char>| #[trigger] all.contains(x) <==> items.contains(x) && x
            != item by {
            if all.contains(x) {
                let i = choose|i: int| 0 <= i < all.len() && all[i] == x;
                if i < kept.len() {
                    assert(kept[i] == x);
                    assert(kept.contains(x));
                    let j = choose|j: int| 0 <= j < head.len() && head[j] == x;
                    assert(items[j] == x);
                } else {
                    assert(items[items.len() - 1] == x);
                }
            }
            if items.contains(x) && x != item {
                let i = choose|i: int| 0 <= i < items.len() && items[i] == x;
                if i < head.len() {
                    assert(head[i] == x);
                    assert(head.contains(x));
                    assert(kept.contains(x));
                    let j = choose|j: int| 0 <= j < kept.len() && kept[j] == x;
                    assert(all[j] == x);
                } else {
                    assert(all[all.len() - 1] == x);
                }
            }
        }
        if items.no_duplicates() {
            assert(head.no_duplicates()) by {
                assert forall|i: int, j: int|
                    0 <= i < head.len() && 0 <= j < head.len() && i != j implies head[i]
                    != head[j] by {
                    assert(items[i] == head[i]);
                    assert(items[j] == head[j]);
                }
            }
            if last != item {
                assert(!kept.contains(last)) by {
                    if kept.contains(last) {
                        assert(head.contains(last));
                        let j = choose|j: int| 0 <= j < head.len() && head[j] == last;
                        assert(items[j] == items[items.len() - 1]);
                    }
                }
                assert forall|i: int, j: int|
                    0 <= i < all.len() && 0 <= j < all.len() && i != j implies all[i]
                    != all[j] by {
                    if i < kept.len() && j < kept.len() {
                        assert(kept[i] != kept[j]);
                    } else if i < kept.len() {
                        assert(kept.contains(kept[i]));
                    } else {
                        assert(kept.contains(kept[j]));
                    }
                }
            }
        }
    }
}

impl PlansModel {
    /// Every plan is in at most one place, and few finished plans are kept.
    pub open spec fn wf(self) -> bool {
        &&& self.owned.disjoint(self.active)
        &&& self.owned.disjoint(self.terminal.to_set())
        &&& self.active.disjoint(self.terminal.to_set())
        &&& self.terminal.no_duplicates()
        &&& self.terminal.len() <= MAX_CLAIMED_PLAN_IDS
    }

    /// The plans that the session recognizes.
    pub open spec fn recognized(self) -> Set<Seq<char>> {
        self.owned.union(self.active).union(self.terminal.to_set())
    }

    /// The plans after a preview returned `plan`.
    pub open spec fn remembering(self, plan: Seq<char>) -> PlansModel {
        PlansModel {
            owned: self.owned.insert(plan),
            active: self.active.remove(plan),
            terminal: without(self.terminal, plan),
        }
    }

    /// Whether the session may apply `plan`.
    pub open spec fn claimable(self, plan: Seq<char>) -> bool {
        self.recognized().contains(plan)
    }

    /// The plans after `plan` was claimed for applying.
    pub open spec fn claiming(self, plan: Seq<char>) -> PlansModel {
        if self.owned.contains(plan) {
            PlansModel {
                owned: self.owned.remove(plan),
                active: self.active.insert(plan),
                terminal: self.terminal,
            }
        } else {
            self
        }
    }

    /// The plans after applying `plan` came to an end; the oldest finished plan
    /// makes room.
    pub open spec fn finishing(self, plan: Seq<char>) -> PlansModel {
        if self.active.contains(plan) {
            PlansModel {
                owned: self.owned,
                active: self.active.remove(plan),
                terminal: if self.terminal.len() >= MAX_CLAIMED_PLAN_IDS {
                    self.terminal.skip(1).push(plan)
                } else {
                    self.terminal.push(plan)
                },
            }
        } else {
            self
        }
    }

    pub open spec fn none() -> PlansModel {
        PlansModel { owned: Set::empty(), active: Set::empty(), terminal: seq![] }
    }
}

fn position_of(plans: &Vec<PlanId>, plan_id: &PlanId) -> (index: Option<usize>)
    ensures
        match index {
            Some(i) => i < plans@.len() && plans@[i as int]@ == plan_id@,
            None => !plan_texts(plans@).contains(plan_id@),
        },
{
    let mut i: usize = 0;
    while i < plans.len()
        invariant
            i <= plans@.len(),
            forall|j: int| 0 <= j < i ==> (#[trigger] plans@[j])@ != plan_id@,
        decreases plans@.len() - i,
    {
        if plans[i].same(plan_id) {
            return Some(i);
        }
        i = i + 1;
    }
    assert forall|j: int| 0 <= j < plans@.len() implies plan_texts(plans@)[j] != plan_id@ by {
        assert(plans@[j]@ != plan_id@);
    }
    None
}

fn holds(plans: &Vec<PlanId>, plan_id: &PlanId) -> (found: bool)
    ensures
        found == plan_texts(plans@).to_set().contains(plan_id@),
{
    match position_of(plans, plan_id) {
        Some(i) => {
            assert(plan_texts(plans@)[i as int] == plan_id@);
            true
        },
        None => false,
    }
}

fn remove_all(plans: &Vec<PlanId>, plan_id: &PlanId) -> (kept: Vec<PlanId>)
    ensures
        plan_texts(kept@) == without(plan_texts(plans@), plan_id@),
{
    let mut kept: Vec<PlanId> = Vec::new();
    let ghost all = plan_texts(plans@);
    let mut i: usize = 0;
    assert(all.take(0) =~= seq![]);
    assert(plan_texts(kept@) =~= seq![]);
    while i < plans.len()
        invariant
            i <= plans@.len(),
            all == plan_texts(plans@),
            plan_texts(kept@) == without(all.take(i as int), plan_id@),
        decreases plans@.len() - i,
    {
        let ghost next = all.take(i + 1);
        let ghost before = plan_texts(kept@);
        assert(next.drop_last() =~= all.take(i as int));
        assert(next.last() == plans@[i as int]@);
        if !plans[i].same(plan_id) {
            kept.push(plans[i].clone());
            assert(plan_texts(kept@) =~= before.push(plans@[i as int]@));
        }
        i = i + 1;
    }
    assert(all.take(i as int) =~= all);
    kept
}

fn add_plan(plans: &mut Vec<PlanId>, plan_id: &PlanId)
    ensures
        plan_texts(final(plans)@) == plan_texts(old(plans)@).push(plan_id@),
        plan_texts(final(plans)@).to_set() == plan_texts(old(plans)@).to_set().insert(plan_id@),
{
    let ghost before = plan_texts(plans@);
    plans.push(plan_id.clone());
    let ghost after = plan_texts(plans@);
    assert(after =~= before.push(plan_id@));
    proof {
        assert forall|x: Seq<char>| after.to_set().contains(x) <==> before.to_set().insert(
            plan_id@,
        ).contains(x) by {
            if after.contains(x) {
                let i = choose|i: int| 0 <= i < after.len() && after[i] == x;
                if i < before.len() {
                    assert(before[i] == x);
                }
            }
            if before.contains(x) {
                let i = choose|i: int| 0 <= i < before.len() && before[i] == x;
                assert(after[i] == x);
            }
            assert(after[before.len() as int] == plan_id@);
        }
        assert(after.to_set() =~= before.to_set().insert(plan_id@));
    }
}

impl SessionEditPlans {
    pub fn new() -> (plans: Self)
        ensures
            plans@ == PlansModel::none(),
            plans@.wf(),
    {
        let plans = SessionEditPlans {
            owned: Vec::new(),
            active: Vec::new(),
            terminal: Vec::new(),
        };
        assert(plan_texts(plans.terminal@) =~= seq![]);
        assert(plan_texts(plans.owned@).to_set() =~= Set::empty());
        assert(plan_texts(plans.active@).to_set() =~= Set::empty());
        plans
    }

    /// Remembers a plan that a preview returned.
    pub fn remember(&mut self, plan_id: PlanId)
        requires
            old(self)@.wf(),
        ensures
            final(self)@ == old(self)@.remembering(plan_id@),
            final(self)@.wf(),
    {
        let ghost before = self@;
        proof {
            lemma_without(plan_texts(self.active@), plan_id@);
            lemma_without(plan_texts(self.terminal@), plan_id@);
        }
        self.active = remove_all(&self.active, &plan_id);
        self.terminal = remove_all(&self.terminal, &plan_id);
        add_plan(&mut self.owned, &plan_id);
        proof {
            law_remember_keeps_places_apart(before, plan_id@);
        }
    }

    /// Claims a plan for applying, and says whether this session may apply it.
    pub fn claim(&mut self, plan_id: &PlanId) -> (granted: bool)
        requires
            old(self)@.wf(),
        ensures
            granted == old(self)@.claimable(plan_id@),
            final(self)@ == old(self)@.claiming(plan_id@),
            final(self)@.wf(),
    {
        let ghost before = self@;
        proof {
            lemma_without(plan_texts(self.owned@), plan_id@);
            law_claim_keeps_places_apart(before, plan_id@);
        }
        if !holds(&self.owned, plan_id) {
            return holds(&self.active, plan_id) || holds(&self.terminal, plan_id);
        }
        self.owned = remove_all(&self.owned, plan_id);
        add_plan(&mut self.active, plan_id);
        true
    }

    /// Marks a claimed plan as finished.
    pub fn finish(&mut self, plan_id: &PlanId)
        requires
            old(self)@.wf(),
        ensures
            final(self)@ == old(self)@.finishing(plan_id@),
            final(self)@.wf(),
    {
        let ghost before = self@;
        proof {
            lemma_without(plan_texts(self.active@), plan_id@);
            law_finish_keeps_places_apart(before, plan_id@);
        }
        if !holds(&self.active, plan_id) {
            return ;
        }
        self.active = remove_all(&self.active, plan_id);
        if self.terminal.len() >= MAX_CLAIMED_PLAN_IDS {
            let _ = self.terminal.remove(0);
            assert(plan_texts(self.terminal@) =~= before.terminal.skip(1));
        }
        add_plan(&mut self.terminal, plan_id);
    }

    /// Whether a preview of this session returned the plan and nothing claimed
    /// it yet.
    pub fn owns(&self, plan_id: &PlanId) -> (owned: bool)
        ensures
            owned == self@.owned.contains(plan_id@),
    {
        holds(&self.owned, plan_id)
    }

    /// Whether this session still recognizes the plan.
    pub fn recognizes(&self, plan_id: &PlanId) -> (recognized: bool)
        ensures
            recognized == self@.recognized().contains(plan_id@),
    {
        holds(&self.owned, plan_id) || holds(&self.active, plan_id) || holds(
            &self.terminal,
            plan_id,
        )
    }
}

/// Remembering a plan keeps every plan in at most one place.
pub proof fn law_remember_keeps_places_apart(plans: PlansModel, plan: Seq<char>)
    requires
        plans.wf(),
    ensures
        plans.remembering(plan).wf(),
        plans.remembering(plan).recognized() =~= plans.recognized().insert(plan),
        plans.remembering(plan).owned.contains(plan),
{
    lemma_without(plans.terminal, plan);
}

/// Claiming a plan keeps every plan in at most one place and forgets none.
pub proof fn law_claim_keeps_places_apart(plans: PlansModel, plan: Seq<char>)
    requires
        plans.wf(),
    ensures
        plans.claiming(plan).wf(),
        plans.claiming(plan).recognized() =~= plans.recognized(),
        !plans.claiming(plan).owned.contains(plan),
{
}

/// Finishing a plan keeps every plan in at most one place; at most the oldest
/// finished plan is forgotten, and that only when there are many.
pub proof fn law_finish_keeps_places_apart(plans: PlansModel, plan: Seq<char>)
    requires
        plans.wf(),
    ensures
        plans.finishing(plan).wf(),
        plans.terminal.len() < MAX_CLAIMED_PLAN_IDS ==> plans.finishing(plan).recognized()
            =~= plans.recognized(),
        plans.active.contains(plan) && plans.terminal.len() == MAX_CLAIMED_PLAN_IDS
            ==> plans.finishing(plan).recognized() =~= plans.recognized().remove(
            plans.terminal[0],
        ),
        plans.recognized().contains(plan) ==> plans.finishing(plan).recognized().contains(plan),
{
    let terminal = plans.terminal;
    if plans.active.contains(plan) {
        let kept = if terminal.len() >= MAX_CLAIMED_PLAN_IDS {
            terminal.skip(1)
        } else {
            terminal
        };
        let after = kept.push(plan);
        assert(after == plans.finishing(plan).terminal);
        assert forall|x: Seq<char>| #[trigger] after.contains(x) <==> x == plan || kept.contains(
            x,
        ) by {
            if after.contains(x) {
                let i = choose|i: int| 0 <= i < after.len() && after[i] == x;
                if i < kept.len() {
                    assert(kept[i] == x);
                }
            }
            if kept.contains(x) {
                let i = choose|i: int| 0 <= i < kept.len() && kept[i] == x;
                assert(after[i] == x);
            }
            assert(after[kept.len() as int] == plan);
        }
        assert forall|x: Seq<char>| #[trigger] kept.contains(x) implies terminal.contains(x) by {
            let i = choose|i: int| 0 <= i < kept.len() && kept[i] == x;
            if terminal.len() >= MAX_CLAIMED_PLAN_IDS {
                assert(terminal[i + 1] == x);
            }
        }
        assert(!terminal.contains(plan)) by {
            if terminal.contains(plan) {
                assert(terminal.to_set().contains(plan));
            }
        }
        assert(kept.no_duplicates()) by {
            assert forall|i: int, j: int|
                0 <= i < kept.len() && 0 <= j < kept.len() && i != j implies kept[i] != kept[j] by {
                if terminal.len() >= MAX_CLAIMED_PLAN_IDS {
                    assert(kept[i] == terminal[i + 1]);
                    assert(kept[j] == terminal[j + 1]);
                }
            }
        }
        assert(after.no_duplicates()) by {
            assert forall|i: int, j: int|
                0 <= i < after.len() && 0 <= j < after.len() && i != j implies after[i]
                != after[j] by {
                if i < kept.len() {
                    assert(kept.contains(kept[i]));
                }
                if j < kept.len() {
                    assert(kept.contains(kept[j]));
                }
            }
        }
        assert forall|x: Seq<char>| after.to_set().contains(x) implies x == plan
            || terminal.to_set().contains(x) by {
            assert(after.contains(x));
        }
        if terminal.len() == MAX_CLAIMED_PLAN_IDS {
            assert forall|x: Seq<char>| #[trigger] kept.contains(x) <==> terminal.contains(x) && x
                != terminal[0] by {
                if terminal.contains(x) && x != terminal[0] {
                    let i = choose|i: int| 0 <= i < terminal.len() && terminal[i] == x;
                    assert(kept[i - 1] == x);
                }
                if kept.contains(x) {
                    let i = choose|i: int| 0 <= i < kept.len() && kept[i] == x;
                    assert(terminal[i + 1] == x);
                }
            }
            assert(terminal.contains(terminal[0]));
            assert forall|x: Seq<char>|
                plans.finishing(plan).recognized().contains(x)
                    <==> plans.recognized().remove(terminal[0]).contains(x) by {
                assert(after.contains(x) <==> x == plan || kept.contains(x));
                assert(terminal.to_set().contains(terminal[0]));
            }
        } else {
            assert forall|x: Seq<char>|
                plans.finishing(plan).recognized().contains(x) <==> plans.recognized().contains(
                    x,
                ) by {
                assert(after.contains(x) <==> x == plan || kept.contains(x));
            }
        }
        assert(after.contains(plan));
    }
}

/// A claim can be repeated: a plan that may be applied may still be applied
/// after it was claimed, whatever other plans are claimed meanwhile.
pub proof fn law_claim_is_repeatable(plans: PlansModel, plan: Seq<char>, other: Seq<char>)
    requires
        plans.wf(),
        plans.claimable(plan),
    ensures
        plans.claiming(plan).claimable(plan),
        plans.claiming(other).claimable(plan),
        plans.claiming(plan).claiming(plan) == plans.claiming(plan),
{
    law_claim_keeps_places_apart(plans, plan);
    law_claim_keeps_places_apart(plans, other);
}

/// A plan that no preview of the session returned cannot be claimed, and trying
/// changes nothing.
pub proof fn law_foreign_plan_is_refused(plans: PlansModel, plan: Seq<char>)
    requires
        plans.wf(),
        !plans.recognized().contains(plan),
    ensures
        !plans.claimable(plan),
        plans.claiming(plan) == plans,
        plans.finishing(plan) == plans,
{
}

/// A claimed plan that another edit keeps waiting can be put back and claimed
/// again.
pub proof fn law_busy_plan_can_be_claimed_again(plans: PlansModel, plan: Seq<char>)
    requires
        plans.wf(),
        plans.owned.contains(plan),
    ensures
        plans.claiming(plan).remembering(plan) == plans,
{
    lemma_without(plans.terminal, plan);
    lemma_without_absent(plans.terminal, plan);
    assert(plans.claiming(plan).remembering(plan) =~= plans);
}

proof fn lemma_without_absent(items: Seq<Seq<char>>, item: Seq<char>)
    requires
        !items.to_set().contains(item),
    ensures
        without(items, item) == items,
    decreases items.len(),
{
    assert(!items.contains(item)) by {
        if items.contains(item) {
            assert(items.to_set().contains(item));
        }
    }
    if items.len() > 0 {
        let head = items.drop_last();
        assert(items[items.len() - 1] != item);
        assert(!head.contains(item)) by {
            if head.contains(item) {
                let i = choose|i: int| 0 <= i < head.len() && head[i] == item;
                assert(items[i] == item);
            }
        }
        lemma_without_absent(head, item);
        assert(without(items, item) =~= items);
    }
}

/// The elicitation forms that a client declared.
#[derive(Clone, Copy, Debug, PartialEq, Eq, Structural)]
pub struct ElicitationSupport {
    pub form: bool,
    pub url: bool,
}

/// What is known of the connected client.
#[derive(Clone, Copy, Debug, PartialEq, Eq, Structural)]
pub struct ClientFeatures {
    pub form_elicitation: Option<bool>,
    pub multi_round_trip: Option<bool>,
}

impl ClientFeatures {
    pub fn unknown() -> (features: Self)
        ensures
            features == (ClientFeatures { form_elicitation: None, multi_round_trip: None }),
    {
        ClientFeatures { form_elicitation: None, multi_round_trip: None }
    }

    /// What a client's declared elicitation says: forms are supported if they
    /// are named, or if no form of elicitation is.
    pub fn declared(elicitation: Option<ElicitationSupport>, supports_mrtr: bool) -> (features:
        Self)
        ensures
            features.multi_round_trip == Some(supports_mrtr),
            features.form_elicitation == match elicitation {
                Some(support) => Some(support.form || !support.url),
                None => None,
            },
    {
        let form_elicitation = match elicitation {
            Some(support) => Some(support.form || (!support.form && !support.url)),
            None => None,
        };
        ClientFeatures { form_elicitation, multi_round_trip: Some(supports_mrtr) }
    }

    /// Whether the client declared form elicitation.
    pub fn supports_form_elicitation(&self) -> (supported: bool)
        ensures
            supported == (self.form_elicitation == Some(true)),
    {
        match self.form_elicitation {
            Some(supported) => supported,
            None => false,
        }
    }

    /// Whether an approval round trip is possible.
    pub fn supports_mutation_approval(&self) -> (supported: bool)
        ensures
            supported == (self.form_elicitation == Some(true) && self.multi_round_trip == Some(
                true,
            )),
    {
        self.supports_form_elicitation() && match self.multi_round_trip {
            Some(supported) => supported,
            None => false,
        }
    }
}

/// Approval nonces that wait for one retry.
#[derive(Debug)]
pub struct PendingApprovals {
    pub nonces: Vec<String>,
}

impl View for PendingApprovals {
    type V = Set<Seq<char>>;

    open spec fn view(&self) -> Set<Seq<char>> {
        texts(self.nonces@).to_set()
    }
}

impl PendingApprovals {
    pub fn new() -> (approvals: Self)
        ensures
            approvals@ == Set::<Seq<char>>::empty(),
    {
        let approvals = PendingApprovals { nonces: Vec::new() };
        assert(approvals@ =~= Set::empty());
        approvals
    }

    /// Registers one nonce for a pending approval round.
    pub fn remember(&mut self, nonce: String)
        ensures
            final(self)@ == old(self)@.insert(nonce@),
    {
        let ghost before = texts(self.nonces@);
        let ghost text = nonce@;
        self.nonces.push(nonce);
        let ghost after = texts(self.nonces@);
        proof {
            assert(after =~= before.push(text));
            assert forall|x: Seq<char>| after.to_set().contains(x) <==> before.to_set().insert(
                text,
            ).contains(x) by {
                if after.contains(x) {
                    let i = choose|i: int| 0 <= i < after.len() && after[i] == x;
                    if i < before.len() {
                        assert(before[i] == x);
                    }
                }
                if before.contains(x) {
                    let i = choose|i: int| 0 <= i < before.len() && before[i] == x;
                    assert(after[i] == x);
                }
                assert(after[before.len() as int] == text);
            }
            assert(self@ =~= old(self)@.insert(text));
        }
    }

    /// Whether a nonce is pending, without consuming it.
    pub fn has(&self, nonce: &str) -> (pending: bool)
        ensures
            pending == self@.contains(nonce@),
    {
        let ghost all = texts(self.nonces@);
        let mut i: usize = 0;
        while i < self.nonces.len()
            invariant
                i <= self.nonces@.len(),
                all == texts(self.nonces@),
                forall|j: int| 0 <= j < i ==> all[j] != nonce@,
            decreases self.nonces@.len() - i,
        {
            assert(all[i as int] == self.nonces@[i as int]@);
            if same_text(self.nonces[i].as_str(), nonce) {
                assert(all.contains(nonce@));
                return true;
            }
            i = i + 1;
        }
        assert(!all.contains(nonce@));
        false
    }

    /// Consumes a pending nonce, and says whether it was pending.
    pub fn consume(&mut self, nonce: &str) -> (was_pending: bool)
        ensures
            was_pending == old(self)@.contains(nonce@),
            final(self)@ == old(self)@.remove(nonce@),
    {
        let was_pending = self.has(nonce);
        let ghost all = texts(self.nonces@);
        let mut kept: Vec<String> = Vec::new();
        let mut i: usize = 0;
        assert(all.take(0) =~= seq![]);
        assert(texts(kept@) =~= seq![]);
        while i < self.nonces.len()
            invariant
                i <= self.nonces@.len(),
                all == texts(self.nonces@),
                texts(kept@) == without(all.take(i as int), nonce@),
            decreases self.nonces@.len() - i,
        {
            let ghost next = all.take(i + 1);
            let ghost before = texts(kept@);
            assert(next.drop_last() =~= all.take(i as int));
            assert(next.last() == self.nonces@[i as int]@);
            if !same_text(self.nonces[i].as_str(), nonce) {
                kept.push(self.nonces[i].clone());
                assert(texts(kept@) =~= before.push(self.nonces@[i as int]@));
            }
            i = i + 1;
        }
        assert(all.take(i as int) =~= all);
        self.nonces = kept;
        proof {
            lemma_without(all, nonce@);
        }
        was_pending
    }
}

/// Whether a text has the form of a hyphenated random identifier: lower-case hex
/// digits in groups of eight, four, four, four and twelve, with the version and
/// the variant in front of the third and the fourth group.
pub open spec fn is_hyphenated(text: Seq<char>) -> bool {
    &&& text.len() == 36
    &&& forall|i: int|
        0 <= i < 36 ==> {
            let c = #[trigger] text[i];
            if i == 8 || i == 13 || i == 18 || i == 23 {
                c == '-'
            } else {
                '0' <= c <= '9' || 'a' <= c <= 'f'
            }
        }
    &&& text[14] == '4'
    &&& text[19] == '8' || text[19] == '9' || text[19] == 'a' || text[19] == 'b'
}

/// Whether bytes are those of a random identifier: sixteen, with the version and
/// the variant in their places.
pub open spec fn is_random_identifier(bytes: Seq<u8>) -> bool {
    &&& bytes.len() == 16
    &&& 0x40 <= bytes[6] <= 0x4f
    &&& 0x80 <= bytes[8] <= 0xbf
}

/// The 16 bytes of `uuid::Uuid::new_v4`: it sets the bits of the version and the
/// variant. Which bytes they are beside that is left to chance; the call ends the
/// process where the system has no randomness to give.
#[verifier::external_body]
fn random_bytes() -> (bytes: Vec<u8>)
    ensures
        is_random_identifier(bytes@),
{
    uuid::Uuid::new_v4().as_bytes().to_vec()
}

/// The text of `uuid::Uuid::new_v4`, in its hyphenated form. Which digits it
/// holds beside those of the version and the variant is left to chance; the call
/// ends the process where the system has no randomness to give.
#[verifier::external_body]
pub(crate) fn random_text() -> (text: String)
    ensures
        is_hyphenated(text@),
{
    uuid::Uuid::new_v4().to_string()
}

/// The state of one session that its handlers share.
#[derive(Debug)]
pub struct HandlerContext {
    /// Stable identifier of the session, used in audit records.
    pub session_id: String,
    /// Seals and authenticates approval state for this session.
    pub approval_key: Vec<u8>,
    /// Previewed and claimed edit plans of this session.
    pub edit_plans: SessionEditPlans,
    /// Approval nonces that wait for one retry.
    pub pending_approvals: PendingApprovals,
    /// What the connected client can do.
    pub client: ClientFeatures,
}

/// The model of a session's state.
#[verifier::ext_equal]
pub struct ContextModel {
    pub session_id: Seq<char>,
    pub key: Seq<u8>,
    pub plans: PlansModel,
    pub approvals: Set<Seq<char>>,
    pub client: ClientFeatures,
}

impl View for HandlerContext {
    type V = ContextModel;

    open spec fn view(&self) -> ContextModel {
        ContextModel {
            session_id: self.session_id@,
            key: self.approval_key@,
            plans: self.edit_plans@,
            approvals: self.pending_approvals@,
            client: self.client,
        }
    }
}

impl ContextModel {
    pub open spec fn wf(self) -> bool {
        self.plans.wf()
    }

    /// The state with other edit plans.
    pub open spec fn with_plans(self, plans: PlansModel) -> ContextModel {
        ContextModel { plans, ..self }
    }

    /// The state with other pending approvals.
    pub open spec fn with_approvals(self, approvals: Set<Seq<char>>) -> ContextModel {
        ContextModel { approvals, ..self }
    }

    pub open spec fn approves_mutations(self) -> bool {
        self.client.form_elicitation == Some(true) && self.client.multi_round_trip == Some(true)
    }
}

impl HandlerContext {
    /// The state of a session that has just begun, under a given identity.
    pub fn new(session_id: String, approval_key: Vec<u8>) -> (context: Self)
        ensures
            context@ == (ContextModel {
                session_id: session_id@,
                key: approval_key@,
                plans: PlansModel::none(),
                approvals: Set::empty(),
                client: ClientFeatures { form_elicitation: None, multi_round_trip: None },
            }),
            context@.wf(),
    {
        HandlerContext {
            session_id,
            approval_key,
            edit_plans: SessionEditPlans::new(),
            pending_approvals: PendingApprovals::new(),
            client: ClientFeatures::unknown(),
        }
    }

    /// The state of a session that has just begun, with an identity and a key of
    /// its own.
    pub fn for_session() -> (context: Self)
        ensures
            is_hyphenated(context@.session_id),
            context@.key.len() == 32,
            is_random_identifier(context@.key.take(16)),
            is_random_identifier(context@.key.skip(16)),
            context@.plans == PlansModel::none(),
            context@.approvals == Set::<Seq<char>>::empty(),
            context@.client == (ClientFeatures {
                form_elicitation: None,
                multi_round_trip: None,
            }),
            context@.wf(),
    {
        let mut key = random_bytes();
        let mut more = random_bytes();
        let ghost halves = (key@, more@);
        key.append(&mut more);
        proof {
            assert(key@.take(16) =~= halves.0);
            assert(key@.skip(16) =~= halves.1);
        }
        HandlerContext::new(random_text(), key)
    }

    pub fn session_id(&self) -> (id: &str)
        ensures
            id@ == self@.session_id,
    {
        self.session_id.as_str()
    }

    /// Remembers a plan that a preview in this session returned.
    pub fn remember_plan(&mut self, plan_id: PlanId)
        requires
            old(self)@.wf(),
        ensures
            final(self)@ == old(self)@.with_plans(old(self)@.plans.remembering(plan_id@)),
            final(self)@.wf(),
    {
        self.edit_plans.remember(plan_id);
    }

    /// Claims a plan for applying, consuming this session's ownership.
    pub fn claim_plan(&mut self, plan_id: &PlanId) -> (granted: bool)
        requires
            old(self)@.wf(),
        ensures
            granted == old(self)@.plans.claimable(plan_id@),
            final(self)@ == old(self)@.with_plans(old(self)@.plans.claiming(plan_id@)),
            final(self)@.wf(),
    {
        self.edit_plans.claim(plan_id)
    }

    /// Marks a claimed plan as finished.
    pub fn finish_plan(&mut self, plan_id: &PlanId)
        requires
            old(self)@.wf(),
        ensures
            final(self)@ == old(self)@.with_plans(old(self)@.plans.finishing(plan_id@)),
            final(self)@.wf(),
    {
        self.edit_plans.finish(plan_id);
    }

    /// Whether this session owns a plan.
    pub fn owns_plan(&self, plan_id: &PlanId) -> (owned: bool)
        ensures
            owned == self@.plans.owned.contains(plan_id@),
    {
        self.edit_plans.owns(plan_id)
    }

    /// Whether this session still recognizes a previewed plan.
    pub fn recognizes_plan(&self, plan_id: &PlanId) -> (recognized: bool)
        ensures
            recognized == self@.plans.recognized().contains(plan_id@),
    {
        self.edit_plans.recognizes(plan_id)
    }

    /// Captures what the connected client declared.
    pub fn set_client_capabilities(
        &mut self,
        elicitation: Option<ElicitationSupport>,
        supports_mrtr: bool,
    )
        ensures
            final(self)@ == (ContextModel {
                client: ClientFeatures {
                    form_elicitation: match elicitation {
                        Some(support) => Some(support.form || !support.url),
                        None => None,
                    },
                    multi_round_trip: Some(supports_mrtr),
                },
                ..old(self)@
            }),
    {
        self.client = ClientFeatures::declared(elicitation, supports_mrtr);
    }

    pub fn supports_form_elicitation(&self) -> (supported: bool)
        ensures
            supported == (self@.client.form_elicitation == Some(true)),
    {
        self.client.supports_form_elicitation()
    }

    /// Whether an approval round trip is possible.
    pub fn supports_mutation_approval(&self) -> (supported: bool)
        ensures
            supported == self@.approves_mutations(),
    {
        self.client.supports_mutation_approval()
    }

    /// Registers one nonce for a pending approval round.
    pub fn remember_approval(&mut self, nonce: String)
        ensures
            final(self)@ == old(self)@.with_approvals(old(self)@.approvals.insert(nonce@)),
    {
        self.pending_approvals.remember(nonce);
    }

    /// Consumes one pending nonce.
    pub fn consume_approval(&mut self, nonce: &str) -> (was_pending: bool)
        ensures
            was_pending == old(self)@.approvals.contains(nonce@),
            final(self)@ == old(self)@.with_approvals(old(self)@.approvals.remove(nonce@)),
    {
        self.pending_approvals.consume(nonce)
    }

    /// Whether a nonce is pending, without consuming it.
    pub fn has_approval(&self, nonce: &str) -> (pending: bool)
        ensures
            pending == self@.approvals.contains(nonce@),
    {
        self.pending_approvals.has(nonce)
    }
}

/// A nonce can be consumed once: the second time it is no longer pending.
pub proof fn law_approval_is_consumed_once(context: ContextModel, nonce: Seq<char>)
    ensures
        !context.with_approvals(context.approvals.remove(nonce)).approvals.contains(nonce),
{
}

/// A session that has just begun owns no plan and may apply none.
pub proof fn law_new_session_owns_nothing(context: ContextModel, plan: Seq<char>)
    requires
        context.plans == PlansModel::none(),
    ensures
        !context.plans.claimable(plan),
        !context.plans.owned.contains(plan),
{
}

/// A plan that is remembered is owned, whatever became of it before; every other plan
/// stays where it is.
pub proof fn law_remembered_plan_is_owned(plans: PlansModel, plan: Seq<char>, other: Seq<char>)
    ensures
        ({
            let after = plans.remembering(plan);
            &&& after.owned.contains(plan)
            &&& !after.active.contains(plan)
            &&& !after.terminal.contains(plan)
            &&& other != plan ==> {
                &&& after.owned.contains(other) <==> plans.owned.contains(other)
                &&& after.active.contains(other) <==> plans.active.contains(other)
                &&& after.terminal.contains(other) <==> plans.terminal.contains(other)
            }
        }),
{
    lemma_without(plans.terminal, plan);
}

/// A plan that is claimed is owned no more but being applied, if it was owned; a plan
/// that is known in another way stays as it is, and so does every other plan.
pub proof fn law_claimed_plan_is_being_applied(plans: PlansModel, plan: Seq<char>, other: Seq<char>)
    ensures
        ({
            let after = plans.claiming(plan);
            &&& plans.owned.contains(plan) ==> after.active.contains(plan) && !after.owned.contains(
                plan,
            )
            &&& !plans.owned.contains(plan) ==> after == plans
            &&& after.terminal == plans.terminal
            &&& other != plan ==> {
                &&& after.owned.contains(other) <==> plans.owned.contains(other)
                &&& after.active.contains(other) <==> plans.active.contains(other)
            }
            &&& plans.claimable(plan) <==> {
                ||| plans.owned.contains(plan)
                ||| plans.active.contains(plan)
                ||| plans.terminal.contains(plan)
            }
        }),
{
    assert(plans.terminal.to_set().contains(plan) <==> plans.terminal.contains(plan));
}

/// A plan that is settled is the last of those settled. At two hundred and fifty-six of
/// them the first is forgotten, and no other. A plan that was not being applied is not
/// settled.
pub proof fn law_settled_plan_is_the_last(plans: PlansModel, plan: Seq<char>)
    requires
        plans.wf(),
    ensures
        ({
            let after = plans.finishing(plan);
            &&& !plans.active.contains(plan) ==> after == plans
            &&& plans.active.contains(plan) ==> {
                &&& after.terminal.last() == plan
                &&& !after.active.contains(plan)
                &&& after.owned == plans.owned
                &&& plans.terminal.len() < 256 ==> after.terminal == plans.terminal.push(plan)
                &&& plans.terminal.len() == 256 ==> after.terminal == plans.terminal.skip(1).push(
                    plan,
                )
            }
        }),
{
}

/// A client is asked for approval only where it said that it can be asked by a form and
/// that it can answer in a further round.
pub proof fn law_asked_client_can_answer(context: ContextModel)
    ensures
        context.approves_mutations() <==> context.client.form_elicitation == Some(true)
            && context.client.multi_round_trip == Some(true),
{
}

} // verus!
