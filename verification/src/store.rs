//! The conversation store: an append-only tree of messages, held in an
//! arena and addressed by paths of child selectors.
use vstd::prelude::*;
use crate::errors::ChatError;
use crate::message::{message_views, Message, MessageView, Role};

verus! {

/// One stored message, the message that it continues and as which of that
/// message's continuations, and the messages that continue it, oldest first.
pub struct Node {
    message: Message,
    parent: Option<usize>,
    selector: usize,
    children: Vec<usize>,
}

/// A branching history of messages. A path selects, at each step, one of
/// the continuations of the message reached so far; its first selector
/// picks among the messages that start a history. The active path is the
/// branch that new messages are appended to.
pub struct ConversationStore {
    nodes: Vec<Node>,
    roots: Vec<usize>,
    active: Vec<usize>,
}

impl ConversationStore {
    /// The continuations of the last node of `ids`, or the starting
    /// messages where `ids` is empty.
    pub closed spec fn continuations(&self, ids: Seq<int>) -> Seq<usize> {
        if ids.len() == 0 {
            self.roots@
        } else {
            self.nodes@[ids.last()].children@
        }
    }

    /// The arena positions of the messages along `path`, or `None` where a
    /// selector is out of range.
    pub closed spec fn walk(&self, path: Seq<usize>) -> Option<Seq<int>>
        decreases path.len(),
    {
        if path.len() == 0 {
            Some(Seq::empty())
        } else {
            match self.walk(path.drop_last()) {
                None => None,
                Some(ids) => {
                    let next = self.continuations(ids);
                    if path.last() < next.len() {
                        Some(ids.push(next[path.last() as int] as int))
                    } else {
                        None
                    }
                },
            }
        }
    }

    /// Every link points into the arena.
    pub closed spec fn links_in_range(&self) -> bool {
        &&& forall|i: int| 0 <= i < self.roots@.len() ==> (#[trigger] self.roots@[i]) < self.nodes@.len()
        &&& forall|n: int, i: int|
            0 <= n < self.nodes@.len() && 0 <= i < self.nodes@[n].children@.len() ==> (
            #[trigger] self.nodes@[n].children@[i]) < self.nodes@.len()
    }

    /// Every message knows where it hangs: the message that it continues,
    /// or none where it starts a history, and its selector there. So the
    /// store is a forest: no message is reached by two paths.
    pub closed spec fn links_back(&self) -> bool {
        &&& forall|i: int|
            0 <= i < self.roots@.len() ==> self.nodes@[(#[trigger] self.roots@[i]) as int].parent is None
                && self.nodes@[self.roots@[i] as int].selector == i
        &&& forall|n: int, i: int|
            0 <= n < self.nodes@.len() && 0 <= i < self.nodes@[n].children@.len() ==> self.nodes@[(
            #[trigger] self.nodes@[n].children@[i]) as int].parent == Some(n as usize)
                && self.nodes@[self.nodes@[n].children@[i] as int].selector == i
    }

    /// Every link points into the arena, every message knows where it
    /// hangs, and the active path leads somewhere.
    pub closed spec fn wf(&self) -> bool {
        &&& self.links_in_range()
        &&& self.links_back()
        &&& self.walk(self.active@) is Some
    }

    /// The messages along `path` from the start to its leaf, or `None`
    /// where a selector is out of range.
    pub closed spec fn resolved(&self, path: Seq<usize>) -> Option<Seq<MessageView>> {
        match self.walk(path) {
            None => None,
            Some(ids) => Some(Seq::new(ids.len(), |i: int| self.nodes@[ids[i]].message@)),
        }
    }

    /// The number of continuations that the leaf of `path` has: the
    /// selectors that may follow `path`. For the empty path, the number of
    /// messages that start a history.
    pub closed spec fn fanout(&self, path: Seq<usize>) -> nat {
        match self.walk(path) {
            None => 0,
            Some(ids) => self.continuations(ids).len(),
        }
    }

    /// The branch that new messages are appended to.
    pub closed spec fn active_path(&self) -> Seq<usize> {
        self.active@
    }

    /// The number of messages in the store, over all branches.
    pub closed spec fn count(&self) -> nat {
        self.nodes@.len()
    }

    /// The messages of the active branch.
    pub open spec fn active_messages(&self) -> Seq<MessageView> {
        self.resolved(self.active_path()).unwrap()
    }

    /// Whether `after` is this store with `message` added as the newest
    /// continuation of the leaf of `path`, which has become the active
    /// branch's leaf. Every path that was valid leads where it led, and no
    /// other path has gained or lost a continuation.
    pub open spec fn continued(
        &self,
        after: ConversationStore,
        path: Seq<usize>,
        message: MessageView,
    ) -> bool {
        &&& self.resolved(path) is Some
        &&& after.count() == self.count() + 1
        &&& after.active_path() == path.push(self.fanout(path) as usize)
        &&& after.resolved(after.active_path()) == Some(self.resolved(path).unwrap().push(message))
        &&& after.fanout(path) == self.fanout(path) + 1
        &&& after.fanout(after.active_path()) == 0
        &&& forall|other: Seq<usize>|
            #![trigger after.fanout(other)]
            #![trigger self.fanout(other)]
            other != path ==> after.fanout(other) == self.fanout(other)
        &&& forall|other: Seq<usize>|
            #![trigger after.resolved(other)]
            #![trigger self.resolved(other)]
            self.resolved(other) is Some ==> after.resolved(other) == self.resolved(other)
    }

    /// Whether `after` is this store with `path` as its active branch and
    /// nothing else changed.
    pub open spec fn turned_to(&self, after: ConversationStore, path: Seq<usize>) -> bool {
        &&& self.resolved(path) is Some
        &&& after.active_path() == path
        &&& after.count() == self.count()
        &&& forall|other: Seq<usize>|
            #![trigger after.resolved(other)]
            #![trigger self.resolved(other)]
            after.resolved(other) == self.resolved(other)
        &&& forall|other: Seq<usize>|
            #![trigger after.fanout(other)]
            #![trigger self.fanout(other)]
            after.fanout(other) == self.fanout(other)
    }

    /// A walk visits one message for each selector, all of them in the arena.
    proof fn lemma_walk_in_range(&self, path: Seq<usize>)
        requires
            self.links_in_range(),
            self.walk(path) is Some,
        ensures
            self.walk(path).unwrap().len() == path.len(),
            forall|i: int|
                0 <= i < path.len() ==> 0 <= (#[trigger] self.walk(path).unwrap()[i]) < self.nodes@.len(),
        decreases path.len(),
    {
        if path.len() > 0 {
            self.lemma_walk_in_range(path.drop_last());
            let ids = self.walk(path.drop_last()).unwrap();
            let next = self.continuations(ids);
            assert(next[path.last() as int] < self.nodes@.len());
        }
    }

    /// The walk along a prefix of a path is the prefix of the walk.
    proof fn lemma_walk_prefix(&self, path: Seq<usize>, k: int)
        requires
            0 <= k <= path.len(),
            self.walk(path) is Some,
        ensures
            self.walk(path.take(k)) == Some(self.walk(path).unwrap().take(k)),
            self.walk(path).unwrap().len() == path.len(),
        decreases path.len(),
    {
        if path.len() == 0 {
            assert(path.take(k) =~= path);
            assert(self.walk(path).unwrap().take(k) =~= self.walk(path).unwrap());
        } else {
            let shorter = path.drop_last();
            let ids = self.walk(shorter).unwrap();
            self.lemma_walk_prefix(shorter, if k < path.len() { k } else { path.len() - 1 });
            if k == path.len() {
                assert(path.take(k) =~= path);
                assert(self.walk(path).unwrap().take(k) =~= self.walk(path).unwrap());
            } else {
                assert(path.take(k) =~= shorter.take(k));
                assert(self.walk(path).unwrap().take(k) =~= ids.take(k));
            }
        }
    }

    /// The active path of a sound store is valid.
    pub proof fn lemma_active_valid(&self)
        requires
            self.wf(),
        ensures
            self.resolved(self.active_path()) is Some,
    {
    }

    /// A valid path resolves to one message for each selector.
    pub proof fn lemma_resolved_len(&self, path: Seq<usize>)
        requires
            self.resolved(path) is Some,
        ensures
            self.resolved(path).unwrap().len() == path.len(),
    {
        self.lemma_walk_prefix(path, 0);
    }

    /// The empty path is valid and resolves to no message.
    pub proof fn lemma_resolved_empty(&self)
        ensures
            self.resolved(Seq::empty()) == Some(Seq::<MessageView>::empty()),
    {
        assert(self.resolved(Seq::empty()).unwrap() =~= Seq::<MessageView>::empty());
    }

    /// A path with one more selector is valid exactly where the path is
    /// valid and the selector is below the number of continuations of its
    /// leaf.
    pub proof fn lemma_valid_step(&self, path: Seq<usize>, selector: usize)
        ensures
            self.resolved(path.push(selector)) is Some <==> self.resolved(path) is Some && selector
                < self.fanout(path),
    {
        assert(path.push(selector).drop_last() =~= path);
    }

    /// Every prefix of a valid path is valid, and resolves to the messages
    /// that the path starts with: two paths that share a prefix share the
    /// history up to where they part.
    pub proof fn lemma_resolved_prefix(&self, path: Seq<usize>, k: int)
        requires
            0 <= k <= path.len(),
            self.resolved(path) is Some,
        ensures
            self.resolved(path.take(k)) == Some(self.resolved(path).unwrap().take(k)),
    {
        self.lemma_walk_prefix(path, k);
        assert(self.resolved(path.take(k)).unwrap() =~= self.resolved(path).unwrap().take(k));
    }

    /// `later` holds every message of `self` where it was, and every list of
    /// continuations of `self` as the start of its own.
    spec fn grown_into(&self, later: &ConversationStore) -> bool {
        &&& self.nodes@.len() <= later.nodes@.len()
        &&& self.roots@.len() <= later.roots@.len()
        &&& forall|i: int| 0 <= i < self.roots@.len() ==> (#[trigger] later.roots@[i]) == self.roots@[i]
        &&& forall|n: int|
            0 <= n < self.nodes@.len() ==> (#[trigger] later.nodes@[n]).message == self.nodes@[n].message
                && later.nodes@[n].parent == self.nodes@[n].parent && later.nodes@[n].selector
                == self.nodes@[n].selector
        &&& forall|n: int|
            0 <= n < self.nodes@.len() ==> self.nodes@[n].children@.len() <= (
            #[trigger] later.nodes@[n]).children@.len()
        &&& forall|n: int, i: int|
            0 <= n < self.nodes@.len() && 0 <= i < self.nodes@[n].children@.len() ==> (
            #[trigger] later.nodes@[n].children@[i]) == self.nodes@[n].children@[i]
    }

    /// A path that is valid before the store grows leads to the same
    /// messages afterwards.
    proof fn lemma_walk_kept(&self, later: &ConversationStore, path: Seq<usize>)
        requires
            self.links_in_range(),
            self.grown_into(later),
            self.walk(path) is Some,
        ensures
            later.walk(path) == self.walk(path),
            later.resolved(path) == self.resolved(path),
        decreases path.len(),
    {
        self.lemma_walk_in_range(path);
        if path.len() > 0 {
            let shorter = path.drop_last();
            self.lemma_walk_kept(later, shorter);
            self.lemma_walk_in_range(shorter);
            let ids = self.walk(shorter).unwrap();
            if ids.len() > 0 {
                assert(0 <= ids[ids.len() - 1] < self.nodes@.len());
            }
        }
        let ids = self.walk(path).unwrap();
        assert forall|i: int| 0 <= i < ids.len() implies later.nodes@[ids[i]].message@
            == self.nodes@[ids[i]].message@ by {
            assert(0 <= ids[i] < self.nodes@.len());
        }
        assert(later.resolved(path).unwrap() =~= self.resolved(path).unwrap());
    }

    /// The only message that `later` has and `self` has not is `id`, the
    /// newest, without continuations, added at the end of the
    /// continuations of the last of `ids`; every other list stands.
    spec fn grown_by(&self, later: &ConversationStore, ids: Seq<int>, id: usize) -> bool {
        &&& self.grown_into(later)
        &&& id == self.nodes@.len()
        &&& later.nodes@.len() == id + 1
        &&& later.nodes@[id as int].children@.len() == 0
        &&& later.continuations(ids) == self.continuations(ids).push(id)
        &&& ids.len() > 0 ==> later.roots@ == self.roots@
        &&& forall|n: int|
            0 <= n < self.nodes@.len() && !(ids.len() > 0 && ids.last() == n) ==> (
            #[trigger] later.nodes@[n]).children@ == self.nodes@[n].children@
    }

    /// Two paths that lead to the same message are the same path.
    proof fn lemma_one_path(&self, first: Seq<usize>, second: Seq<usize>)
        requires
            self.links_in_range(),
            self.links_back(),
            self.walk(first) is Some,
            self.walk(second) is Some,
            first.len() > 0,
            second.len() > 0,
            self.walk(first).unwrap().last() == self.walk(second).unwrap().last(),
        ensures
            first == second,
        decreases first.len(),
    {
        let p = first.drop_last();
        let q = second.drop_last();
        let ids = self.walk(p).unwrap();
        let jds = self.walk(q).unwrap();
        self.lemma_walk_in_range(p);
        self.lemma_walk_in_range(q);
        let c = self.walk(first).unwrap().last();
        assert(c == self.continuations(ids)[first.last() as int]);
        assert(c == self.continuations(jds)[second.last() as int]);
        if ids.len() > 0 {
            assert(0 <= ids[ids.len() - 1] < self.nodes@.len());
        }
        if jds.len() > 0 {
            assert(0 <= jds[jds.len() - 1] < self.nodes@.len());
        }
        assert(self.nodes@[c].selector == first.last());
        assert(self.nodes@[c].selector == second.last());
        if ids.len() == 0 {
            assert(self.nodes@[c].parent is None);
            assert(jds.len() == 0);
            assert(p =~= q);
        } else {
            assert(self.nodes@[c].parent == Some(ids.last() as usize));
            assert(jds.len() > 0);
            assert(self.nodes@[c].parent == Some(jds.last() as usize));
            self.lemma_one_path(p, q);
        }
        assert(first =~= p.push(first.last()));
        assert(second =~= q.push(second.last()));
    }

    /// A path that is valid only after a message was added leads to that
    /// message.
    proof fn lemma_new_path(&self, later: &ConversationStore, ids: Seq<int>, id: usize, path: Seq<usize>)
        requires
            self.links_in_range(),
            self.grown_by(later, ids, id),
            self.walk(path) is None,
            later.walk(path) is Some,
        ensures
            path.len() > 0,
            later.walk(path).unwrap().last() == id,
        decreases path.len(),
    {
        let shorter = path.drop_last();
        let reached = later.walk(shorter).unwrap();
        later.lemma_walk_prefix(shorter, 0);
        if self.walk(shorter) is None {
            self.lemma_new_path(later, ids, id, shorter);
            assert(later.continuations(reached) =~= later.nodes@[id as int].children@);
        } else {
            self.lemma_walk_kept(later, shorter);
            self.lemma_walk_in_range(shorter);
            let before = self.continuations(reached);
            let after = later.continuations(reached);
            assert(!(path.last() < before.len()));
            assert(path.last() < after.len());
            if reached.len() == 0 {
                if ids.len() == 0 {
                    assert(after == later.continuations(ids));
                }
            } else {
                let leaf = reached.last();
                assert(0 <= reached[reached.len() - 1] < self.nodes@.len());
                if ids.len() > 0 && ids.last() == leaf {
                    assert(after == later.continuations(ids));
                    assert(before == self.continuations(ids));
                } else {
                    assert(later.nodes@[leaf].children@ == self.nodes@[leaf].children@);
                }
            }
        }
    }

    /// Adding a message changes the number of continuations of the path
    /// that it was added to, and of no other path.
    proof fn lemma_fanout_kept(&self, later: &ConversationStore, id: usize, path: Seq<usize>)
        requires
            self.links_in_range(),
            self.links_back(),
            self.walk(self.active@) is Some,
            self.grown_by(later, self.walk(self.active@).unwrap(), id),
            path != self.active@,
        ensures
            later.fanout(path) == self.fanout(path),
    {
        let ids = self.walk(self.active@).unwrap();
        self.lemma_walk_in_range(self.active@);
        if self.walk(path) is Some {
            let reached = self.walk(path).unwrap();
            self.lemma_walk_kept(later, path);
            self.lemma_walk_in_range(path);
            if reached.len() == 0 {
                assert(path =~= Seq::<usize>::empty());
                if ids.len() == 0 {
                    assert(self.active@ =~= Seq::<usize>::empty());
                }
            } else {
                assert(0 <= reached[reached.len() - 1] < self.nodes@.len());
                if ids.len() > 0 && ids.last() == reached.last() {
                    self.lemma_one_path(path, self.active@);
                }
            }
        } else if later.walk(path) is Some {
            self.lemma_new_path(later, ids, id, path);
        }
    }

    /// A store without messages.
    pub fn new() -> (store: ConversationStore)
        ensures
            store.wf(),
            store.count() == 0,
            store.active_path() == Seq::<usize>::empty(),
            store.resolved(Seq::empty()) == Some(Seq::<MessageView>::empty()),
            store.fanout(Seq::empty()) == 0,
    {
        let store = ConversationStore { nodes: Vec::new(), roots: Vec::new(), active: Vec::new() };
        proof {
            store.lemma_resolved_empty();
        }
        store
    }

    /// The number of messages in the store, over all branches.
    pub fn len(&self) -> (n: usize)
        ensures
            n == self.count(),
    {
        self.nodes.len()
    }

    /// The branch that new messages are appended to.
    pub fn current_path(&self) -> (path: &Vec<usize>)
        ensures
            path@ == self.active_path(),
    {
        &self.active
    }

    /// Adds a message at the end of the active branch and makes it the
    /// branch's leaf. Returns its position in the branch. No stored message
    /// changes, and every path that was valid leads where it led.
    pub fn append(&mut self, role: Role, content: &str) -> (position: usize)
        requires
            old(self).wf(),
        ensures
            final(self).wf(),
            position == old(self).active_path().len(),
            position == old(self).active_messages().len(),
            old(self).continued(
                *final(self),
                old(self).active_path(),
                MessageView { role: role@, content: content@ },
            ),
    {
        let ghost before = *self;
        let ghost ids = self.walk(self.active@).unwrap();
        proof {
            self.lemma_walk_in_range(self.active@);
        }
        let position = self.active.len();
        let id = self.nodes.len();
        let message = Message::new(role, content);
        let leaf = self.leaf();
        let hangs_at = match leaf {
            None => self.roots.len(),
            Some(parent) => self.nodes[parent].children.len(),
        };
        self.nodes.push(Node { message, parent: leaf, selector: hangs_at, children: Vec::new() });
        let selector = match leaf {
            None => {
                let selector = self.roots.len();
                self.roots.push(id);
                selector
            },
            Some(parent) => {
                let selector = self.nodes[parent].children.len();
                self.nodes[parent].children.push(id);
                selector
            },
        };
        self.active.push(selector);
        proof {
            assert(before.grown_into(self));
            assert(self.active@.drop_last() =~= before.active@);
            before.lemma_walk_kept(self, before.active@);
            assert(self.continuations(ids) =~= before.continuations(ids).push(id));
            assert(self.walk(self.active@) == Some(ids.push(id as int)));
            assert(self.active@ =~= before.active@.push(before.fanout(before.active@) as usize));
            assert(self.continuations(ids.push(id as int)) =~= Seq::<usize>::empty());
            assert(self.links_in_range());
            assert(before.grown_by(self, ids, id));
            assert(self.links_back());
            assert forall|path: Seq<usize>| path != before.active@ implies #[trigger] self.fanout(path)
                == before.fanout(path) by {
                before.lemma_fanout_kept(self, id, path);
            }
            before.lemma_resolved_len(before.active@);
            assert(self.active_messages() =~= before.active_messages().push(
                MessageView { role: role@, content: content@ },
            ));
            assert forall|path: Seq<usize>| #[trigger]
                before.resolved(path) is Some implies self.resolved(path) == before.resolved(path) by {
                before.lemma_walk_kept(self, path);
            }
        }
        position
    }

    /// The arena position of the active branch's leaf, if the branch holds
    /// a message.
    fn leaf(&self) -> (leaf: Option<usize>)
        requires
            self.wf(),
        ensures
            match leaf {
                None => self.walk(self.active@).unwrap().len() == 0,
                Some(id) => self.walk(self.active@).unwrap().len() > 0 && self.walk(
                    self.active@,
                ).unwrap().last() == id && id < self.nodes@.len(),
            },
    {
        let mut current: Option<usize> = None;
        let mut i: usize = 0;
        proof {
            self.lemma_walk_prefix(self.active@, 0);
            self.lemma_walk_in_range(self.active@);
        }
        while i < self.active.len()
            invariant
                self.wf(),
                i <= self.active@.len(),
                self.walk(self.active@.take(i as int)) is Some,
                self.walk(self.active@.take(i as int)).unwrap().len() == i,
                match current {
                    None => i == 0,
                    Some(id) => i > 0 && self.walk(self.active@.take(i as int)).unwrap().last() == id && id
                        < self.nodes@.len(),
                },
            decreases self.active@.len() - i,
        {
            proof {
                self.lemma_walk_prefix(self.active@, i + 1);
                self.lemma_walk_in_range(self.active@.take(i + 1));
                assert(self.active@.take(i + 1).drop_last() =~= self.active@.take(i as int));
            }
            let selector = self.active[i];
            let id = match current {
                None => self.roots[selector],
                Some(parent) => self.nodes[parent].children[selector],
            };
            current = Some(id);
            i += 1;
        }
        proof {
            assert(self.active@.take(i as int) =~= self.active@);
        }
        current
    }

    /// The number of continuations of the leaf of `path`. Fails with
    /// `InvalidPath` where a selector of `path` is out of range.
    pub fn continuation_count(&self, path: &[usize]) -> (r: Result<usize, ChatError>)
        requires
            self.wf(),
        ensures
            match r {
                Ok(n) => self.resolved(path@) is Some && n == self.fanout(path@),
                Err(error) => self.resolved(path@) is None && error == ChatError::InvalidPath,
            },
    {
        let mut current: Option<usize> = None;
        let mut i: usize = 0;
        let ghost mut ids: Seq<int> = Seq::empty();
        proof {
            assert(path@.take(0) =~= Seq::<usize>::empty());
        }
        while i < path.len()
            invariant
                self.wf(),
                i <= path@.len(),
                self.walk(path@.take(i as int)) == Some(ids),
                ids.len() == i,
                forall|j: int| 0 <= j < i ==> 0 <= (#[trigger] ids[j]) < self.nodes@.len(),
                match current {
                    None => i == 0,
                    Some(id) => i > 0 && ids.last() == id,
                },
            decreases path@.len() - i,
        {
            proof {
                assert(path@.take(i + 1).drop_last() =~= path@.take(i as int));
            }
            let next = match current {
                None => &self.roots,
                Some(parent) => &self.nodes[parent].children,
            };
            let selector = path[i];
            if selector >= next.len() {
                proof {
                    assert(self.walk(path@.take(i + 1)) is None);
                    if self.walk(path@) is Some {
                        self.lemma_walk_prefix(path@, i + 1);
                    }
                }
                return Err(ChatError::InvalidPath);
            }
            let id = next[selector];
            current = Some(id);
            proof {
                ids = ids.push(id as int);
            }
            i += 1;
        }
        proof {
            assert(path@.take(i as int) =~= path@);
        }
        match current {
            None => Ok(self.roots.len()),
            Some(leaf) => Ok(self.nodes[leaf].children.len()),
        }
    }

    /// The messages along `path`, from the start to its leaf. Fails with
    /// `InvalidPath` where a selector is out of range.
    pub fn resolve(&self, path: &[usize]) -> (r: Result<Vec<Message>, ChatError>)
        requires
            self.wf(),
        ensures
            match r {
                Ok(messages) => self.resolved(path@) == Some(message_views(messages@)),
                Err(error) => self.resolved(path@) is None && error == ChatError::InvalidPath,
            },
    {
        let mut messages: Vec<Message> = Vec::new();
        let mut current: Option<usize> = None;
        let mut i: usize = 0;
        let ghost mut ids: Seq<int> = Seq::empty();
        proof {
            assert(path@.take(0) =~= Seq::<usize>::empty());
        }
        while i < path.len()
            invariant
                self.wf(),
                i <= path@.len(),
                self.walk(path@.take(i as int)) == Some(ids),
                ids.len() == i,
                messages@.len() == i,
                forall|j: int| 0 <= j < i ==> 0 <= (#[trigger] ids[j]) < self.nodes@.len(),
                forall|j: int| 0 <= j < i ==> (#[trigger] messages@[j])@ == self.nodes@[ids[j]].message@,
                match current {
                    None => i == 0,
                    Some(id) => i > 0 && ids.last() == id,
                },
            decreases path@.len() - i,
        {
            proof {
                assert(path@.take(i + 1).drop_last() =~= path@.take(i as int));
            }
            let selector = path[i];
            let found = match current {
                None => if selector < self.roots.len() {
                    Some(self.roots[selector])
                } else {
                    None
                },
                Some(parent) => if selector < self.nodes[parent].children.len() {
                    Some(self.nodes[parent].children[selector])
                } else {
                    None
                },
            };
            match found {
                None => {
                    proof {
                        assert(self.walk(path@.take(i + 1)) is None);
                        if self.walk(path@) is Some {
                            self.lemma_walk_prefix(path@, i + 1);
                        }
                    }
                    return Err(ChatError::InvalidPath);
                },
                Some(id) => {
                    messages.push(self.nodes[id].message.clone());
                    current = Some(id);
                    proof {
                        ids = ids.push(id as int);
                    }
                    i += 1;
                },
            }
        }
        proof {
            assert(path@.take(i as int) =~= path@);
            assert(self.resolved(path@).unwrap() =~= message_views(messages@));
        }
        Ok(messages)
    }

    /// Makes `path` the active branch: the next message continues its leaf,
    /// beside the continuations that the leaf already has. Fails with
    /// `InvalidPath`, and changes nothing, where a selector is out of range.
    pub fn select(&mut self, path: &[usize]) -> (r: Result<(), ChatError>)
        requires
            old(self).wf(),
        ensures
            final(self).wf(),
            match r {
                Ok(_) => old(self).turned_to(*final(self), path@),
                Err(error) => old(self).resolved(path@) is None && error == ChatError::InvalidPath
                    && *final(self) == *old(self),
            },
    {
        let ghost before = *self;
        match self.resolve(path) {
            Err(error) => Err(error),
            Ok(_) => {
                let mut active: Vec<usize> = Vec::new();
                let mut i: usize = 0;
                while i < path.len()
                    invariant
                        i <= path@.len(),
                        active@ == path@.take(i as int),
                    decreases path@.len() - i,
                {
                    active.push(path[i]);
                    i += 1;
                    assert(active@ =~= path@.take(i as int));
                }
                assert(path@.take(i as int) =~= path@);
                self.active = active;
                proof {
                    self.lemma_same_walk(&before, path@);
                    assert(self.links_in_range() == before.links_in_range());
                    assert(self.links_back() == before.links_back());
                    assert forall|other: Seq<usize>| #[trigger]
                        self.resolved(other) == before.resolved(other) by {
                        self.lemma_same_walk(&before, other);
                    }
                    assert forall|other: Seq<usize>| #[trigger]
                        self.fanout(other) == before.fanout(other) by {
                        self.lemma_same_walk(&before, other);
                    }
                }
                Ok(())
            },
        }
    }

    /// Stores with the same messages and links resolve every path alike.
    proof fn lemma_same_walk(&self, other: &ConversationStore, path: Seq<usize>)
        requires
            self.nodes == other.nodes,
            self.roots == other.roots,
        ensures
            self.walk(path) == other.walk(path),
            self.resolved(path) == other.resolved(path),
        decreases path.len(),
    {
        if path.len() > 0 {
            self.lemma_same_walk(other, path.drop_last());
        }
    }
}

} // verus!
