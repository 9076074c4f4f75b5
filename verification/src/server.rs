//! The state that lives as long as the monitor: where the container runtime
//! is found, and the table of the containers that were created.

use crate::child::{Child, ChildView};
use crate::failure::RegistrationError;
use crate::table::{
    filed, has_key, keys_differ, lemma_filed_at, lemma_filed_empty, lemma_filed_push, slot,
};
use vstd::prelude::*;

verus! {

/// What a `Server` stands for.
pub struct ServerView {
    /// The path of the container runtime.
    pub runtime: Seq<char>,
    /// The children, each under its container identifier.
    pub children: Map<Seq<char>, ChildView>,
}

impl ServerView {
    /// Each child is filed under its own identifier and is well formed.
    pub open spec fn wf(self) -> bool {
        forall|id: Seq<char>| #[trigger]
            self.children.contains_key(id) ==> self.children[id].id == id
                && self.children[id].wf()
    }

    /// The server after `child` was offered for its table.
    pub open spec fn after_insert(self, child: ChildView) -> ServerView {
        if self.children.contains_key(child.id) {
            self
        } else {
            ServerView { runtime: self.runtime, children: self.children.insert(child.id, child) }
        }
    }
}

/// The table does not take a second child under an identifier it holds, and
/// a child that was refused leaves it as it was.
pub proof fn law_identifiers_are_unique(server: ServerView, first: ChildView, second: ChildView)
    requires
        first.id == second.id,
    ensures
        server.after_insert(first).children.contains_key(first.id),
        server.after_insert(first).after_insert(second) == server.after_insert(first),
{
}

/// The key of a child: its container identifier.
spec fn id_of() -> spec_fn(Child) -> Seq<char> {
    |c: Child| c@.id
}

/// What a child stands for.
spec fn seen() -> spec_fn(Child) -> ChildView {
    |c: Child| c@
}

/// Every child is well formed.
spec fn all_wf(children: Seq<Child>) -> bool {
    forall|i: int| 0 <= i < children.len() ==> (#[trigger] children[i])@.wf()
}

/// Children of distinct identifiers, each well formed, make a well-formed table.
proof fn lemma_table_wf(runtime: Seq<char>, children: Seq<Child>)
    requires
        keys_differ(children, id_of()),
        all_wf(children),
    ensures
        (ServerView { runtime, children: filed(children, id_of(), seen()) }).wf(),
{
    let m = filed(children, id_of(), seen());
    assert forall|id: Seq<char>| #[trigger] m.contains_key(id) implies m[id].id == id
        && m[id].wf() by {
        let k = slot(children, id_of(), id);
        lemma_filed_at(children, id_of(), seen(), k);
    }
}

/// The monitor's own state.
pub struct Server {
    runtime: String,
    children: Vec<Child>,
}

impl View for Server {
    type V = ServerView;

    closed spec fn view(&self) -> ServerView {
        ServerView { runtime: self.runtime@, children: filed(self.children@, id_of(), seen()) }
    }
}

impl Server {
    #[verifier::type_invariant]
    spec fn inv(self) -> bool {
        keys_differ(self.children@, id_of()) && all_wf(self.children@)
    }

    /// A server with an empty child table that starts containers with the
    /// runtime found at `runtime`.
    pub fn new(runtime: String) -> (server: Server)
        ensures
            server@ == (ServerView { runtime: runtime@, children: Map::empty() }),
            server@.wf(),
    {
        let server = Server { runtime, children: Vec::new() };
        proof {
            lemma_filed_empty::<Child, Seq<char>, ChildView>(id_of(), seen());
            assert(server.children@ =~= Seq::<Child>::empty());
        }
        server
    }

    /// The path of the container runtime.
    pub fn runtime(&self) -> (runtime: &String)
        ensures
            runtime@ == self@.runtime,
    {
        &self.runtime
    }

    /// Where the child of identifier `id` stands.
    fn find(&self, id: &String) -> (found: Option<usize>)
        ensures
            match found {
                Some(i) => i < self.children.len() && self.children[i as int]@.id == id@,
                None => !has_key(self.children@, id_of(), id@),
            },
    {
        let mut i: usize = 0;
        while i < self.children.len()
            invariant
                i <= self.children.len(),
                forall|j: int| 0 <= j < i ==> (#[trigger] self.children[j])@.id != id@,
            decreases self.children.len() - i,
        {
            if *self.children[i].id() == *id {
                return Some(i);
            }
            i = i + 1;
        }
        None
    }

    /// Whether the table holds a child of identifier `id`.
    pub fn contains(&self, id: &str) -> (held: bool)
        ensures
            held == self@.children.contains_key(id@),
            self@.wf(),
    {
        proof {
            use_type_invariant(self);
            lemma_table_wf(self.runtime@, self.children@);
        }
        let wanted = id.to_owned();
        self.find(&wanted).is_some()
    }

    /// The child of identifier `id`.
    pub fn get(&self, id: &str) -> (child: Option<&Child>)
        ensures
            match child {
                Some(c) => self@.children.contains_key(id@) && self@.children[id@] == c@,
                None => !self@.children.contains_key(id@),
            },
    {
        proof {
            use_type_invariant(self);
        }
        let wanted = id.to_owned();
        match self.find(&wanted) {
            Some(i) => {
                proof {
                    lemma_filed_at(self.children@, id_of(), seen(), i as int);
                }
                Some(&self.children[i])
            },
            None => None,
        }
    }

    /// How many children the table holds.
    pub fn len(&self) -> (n: usize)
        ensures
            n == self@.children.dom().len(),
            self@.children.dom().finite(),
    {
        proof {
            use_type_invariant(self);
            lemma_filed_count(self.children@);
        }
        self.children.len()
    }

    /// Files `child` under its identifier. An identifier that the table
    /// already holds is refused, and nothing changes.
    pub fn insert(&mut self, child: Child) -> (r: Result<(), RegistrationError>)
        ensures
            final(self)@ == old(self)@.after_insert(child@),
            r is Err <==> old(self)@.children.contains_key(child@.id),
            r is Err ==> r == Err::<(), RegistrationError>(RegistrationError::DuplicateId),
            final(self)@.wf(),
    {
        proof {
            use_type_invariant(&*self);
            lemma_table_wf(self.runtime@, self.children@);
        }
        if self.find(child.id()).is_some() {
            return Err(RegistrationError::DuplicateId);
        }
        proof {
            lemma_filed_push(self.children@, id_of(), seen(), child);
            assert forall|i: int| 0 <= i < self.children@.push(child).len() implies (
            #[trigger] self.children@.push(child)[i])@.wf() by {
                if i < self.children.len() {
                    assert(self.children@[i]@.wf());
                }
            }
            lemma_table_wf(self.runtime@, self.children@.push(child));
        }
        let mut children: Vec<Child> = Vec::new();
        core::mem::swap(&mut self.children, &mut children);
        children.push(child);
        core::mem::swap(&mut self.children, &mut children);
        Ok(())
    }
}

/// A list of distinct identifiers files as many children as it is long.
proof fn lemma_filed_count(children: Seq<Child>)
    requires
        keys_differ(children, id_of()),
    ensures
        filed(children, id_of(), seen()).dom().finite(),
        filed(children, id_of(), seen()).dom().len() == children.len(),
    decreases children.len(),
{
    if children.len() == 0 {
        lemma_filed_empty::<Child, Seq<char>, ChildView>(id_of(), seen());
        assert(children =~= Seq::<Child>::empty());
    } else {
        let front = children.drop_last();
        let last = children.last();
        assert forall|i: int, j: int| 0 <= i < j < front.len() implies id_of()(
            #[trigger] front[i],
        ) != id_of()(#[trigger] front[j]) by {
            assert(id_of()(children[i]) != id_of()(children[j]));
        }
        lemma_filed_count(front);
        if has_key(front, id_of(), id_of()(last)) {
            let i = slot(front, id_of(), id_of()(last));
            assert(id_of()(children[i]) != id_of()(children[children.len() - 1]));
        }
        lemma_filed_push(front, id_of(), seen(), last);
        assert(front.push(last) =~= children);
    }
}

} // verus!
