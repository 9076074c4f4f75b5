//! The record of one supervised container.

use vstd::prelude::*;

verus! {

/// The characters of each text, in order.
pub open spec fn texts(v: Seq<String>) -> Seq<Seq<char>> {
    v.map_values(|s: String| s@)
}

/// The texts of `s` without repetition: each text stays where it first stood.
pub open spec fn distinct(s: Seq<Seq<char>>) -> Seq<Seq<char>>
    decreases s.len(),
{
    if s.len() == 0 {
        s
    } else if distinct(s.drop_last()).contains(s.last()) {
        distinct(s.drop_last())
    } else {
        distinct(s.drop_last()).push(s.last())
    }
}

/// `distinct` keeps exactly the texts of its argument, each once.
pub proof fn lemma_distinct(s: Seq<Seq<char>>)
    ensures
        distinct(s).no_duplicates(),
        forall|x: Seq<char>| distinct(s).contains(x) <==> s.contains(x),
        distinct(s).len() <= s.len(),
    decreases s.len(),
{
    if s.len() > 0 {
        let front = s.drop_last();
        let kept = distinct(front);
        lemma_distinct(front);
        assert forall|x: Seq<char>| distinct(s).contains(x) <==> s.contains(x) by {
            if s.contains(x) {
                let i = choose|i: int| 0 <= i < s.len() && s[i] == x;
                if i < front.len() {
                    assert(front[i] == x);
                    assert(front.contains(x));
                    if !kept.contains(s.last()) {
                        let j = choose|j: int| 0 <= j < kept.len() && kept[j] == x;
                        assert(kept.push(s.last())[j] == x);
                    }
                } else if !kept.contains(s.last()) {
                    assert(kept.push(s.last())[kept.len() as int] == x);
                }
            }
            if distinct(s).contains(x) {
                let j = choose|j: int| 0 <= j < distinct(s).len() && distinct(s)[j] == x;
                if j < kept.len() {
                    assert(kept[j] == x);
                    assert(front.contains(x));
                } else {
                    assert(s[s.len() - 1] == x);
                }
            }
        }
    }
}

/// A list that repeats nothing passes through `distinct` unchanged.
pub proof fn law_distinct_keeps_a_set(s: Seq<Seq<char>>)
    requires
        s.no_duplicates(),
    ensures
        distinct(s) == s,
    decreases s.len(),
{
    if s.len() > 0 {
        let front = s.drop_last();
        law_distinct_keeps_a_set(front);
        if front.contains(s.last()) {
            let i = choose|i: int| 0 <= i < front.len() && front[i] == s.last();
            assert(s[i] == s[s.len() - 1]);
        }
    }
}

/// What a `Child` stands for.
pub struct ChildView {
    pub id: Seq<char>,
    pub pid: int,
    pub exit_paths: Seq<Seq<char>>,
}

impl ChildView {
    /// The exit paths are an ordered set, and the process identifier is one of the machine.
    pub open spec fn wf(self) -> bool {
        &&& self.exit_paths.no_duplicates()
        &&& i32::MIN <= self.pid <= i32::MAX
    }
}

/// One supervised container: its identifier, the process identifier of its
/// entrypoint, and the files that are to receive its exit status.
#[derive(Debug, PartialEq, Eq)]
pub struct Child {
    id: String,
    pid: i32,
    exit_paths: Vec<String>,
}

impl View for Child {
    type V = ChildView;

    closed spec fn view(&self) -> ChildView {
        ChildView { id: self.id@, pid: self.pid as int, exit_paths: texts(self.exit_paths@) }
    }
}

/// Whether `path` stands among `paths`.
fn holds(paths: &Vec<String>, path: &String) -> (r: bool)
    ensures
        r == texts(paths@).contains(path@),
{
    let mut i: usize = 0;
    while i < paths.len()
        invariant
            i <= paths.len(),
            forall|j: int| 0 <= j < i ==> texts(paths@)[j] != path@,
        decreases paths.len() - i,
    {
        if paths[i] == *path {
            assert(texts(paths@)[i as int] == path@);
            return true;
        }
        i = i + 1;
    }
    false
}

/// A copy of each text, in order.
pub fn copy_texts(list: &Vec<String>) -> (copy: Vec<String>)
    ensures
        texts(copy@) == texts(list@),
{
    let mut copy: Vec<String> = Vec::new();
    let mut i: usize = 0;
    while i < list.len()
        invariant
            i <= list.len(),
            texts(copy@) == texts(list@).take(i as int),
        decreases list.len() - i,
    {
        let ghost before = texts(copy@);
        copy.push(list[i].clone());
        assert(texts(list@).take(i + 1) =~= before.push(list@[i as int]@));
        i = i + 1;
    }
    copy
}

/// Drops each path that already stood earlier in the list.
fn without_repeats(paths: Vec<String>) -> (r: Vec<String>)
    ensures
        texts(r@) == distinct(texts(paths@)),
{
    let mut out: Vec<String> = Vec::new();
    let mut i: usize = 0;
    while i < paths.len()
        invariant
            i <= paths.len(),
            texts(out@) == distinct(texts(paths@).take(i as int)),
        decreases paths.len() - i,
    {
        assert(texts(paths@).take(i + 1).drop_last() =~= texts(paths@).take(i as int));
        if !holds(&out, &paths[i]) {
            out.push(paths[i].clone());
        }
        i = i + 1;
    }
    assert(texts(paths@).take(i as int) =~= texts(paths@));
    out
}

impl Child {
    #[verifier::type_invariant]
    spec fn inv(self) -> bool {
        texts(self.exit_paths@).no_duplicates()
    }

    /// A record of the container `id` whose entrypoint runs as `pid`. Of a path
    /// that is given more than once only the first mention is kept.
    pub fn new(id: String, pid: i32, exit_paths: Vec<String>) -> (child: Child)
        ensures
            child@ == (ChildView {
                id: id@,
                pid: pid as int,
                exit_paths: distinct(texts(exit_paths@)),
            }),
            child@.wf(),
    {
        let ghost given = texts(exit_paths@);
        let kept = without_repeats(exit_paths);
        proof {
            lemma_distinct(given);
        }
        Child { id, pid, exit_paths: kept }
    }

    pub fn id(&self) -> (id: &String)
        ensures
            id@ == self@.id,
            self@.wf(),
    {
        proof {
            use_type_invariant(self);
        }
        &self.id
    }

    pub fn pid(&self) -> (pid: i32)
        ensures
            pid == self@.pid,
            self@.wf(),
    {
        proof {
            use_type_invariant(self);
        }
        self.pid
    }

    pub fn exit_paths(&self) -> (paths: &Vec<String>)
        ensures
            texts(paths@) == self@.exit_paths,
            self@.wf(),
    {
        proof {
            use_type_invariant(self);
        }
        &self.exit_paths
    }
}

impl Clone for Child {
    fn clone(&self) -> (copy: Child)
        ensures
            copy@ == self@,
    {
        proof {
            use_type_invariant(self);
        }
        Child { id: self.id.clone(), pid: self.pid, exit_paths: copy_texts(&self.exit_paths) }
    }
}

} // verus!
