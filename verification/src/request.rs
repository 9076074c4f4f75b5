//! The request to create a container, as plain values, and what is derived
//! from it before anything is started.

use crate::child::texts;
use crate::failure::{Failure, FailureKind, FailureView};
use crate::session::Stage;
use crate::wire::{error_description, list_texts, text_list_get, text_list_len};
use vstd::prelude::*;

verus! {

/// What a `CreateContainerRequest` stands for.
pub struct RequestView {
    pub id: Seq<char>,
    pub terminal: bool,
    pub bundle_path: Seq<char>,
    pub exit_paths: Seq<Seq<char>>,
}

/// A request to create a container.
#[derive(Debug, Clone, PartialEq, Eq)]
pub struct CreateContainerRequest {
    /// The identifier of the container; it must not be empty.
    pub id: String,
    /// Whether the container gets a terminal rather than pipes.
    pub terminal: bool,
    /// The directory of the container's bundle.
    pub bundle_path: String,
    /// The files that are to receive the exit status.
    pub exit_paths: Vec<String>,
}

impl View for CreateContainerRequest {
    type V = RequestView;

    open spec fn view(&self) -> RequestView {
        RequestView {
            id: self.id@,
            terminal: self.terminal,
            bundle_path: self.bundle_path@,
            exit_paths: texts(self.exit_paths@),
        }
    }
}

/// The file `pidfile` in the directory `bundle_path`. A separator is put
/// between the two unless the directory is empty or already ends in one.
pub open spec fn spec_pidfile(bundle_path: Seq<char>) -> Seq<char> {
    if bundle_path.len() == 0 || bundle_path.last() == '/' {
        bundle_path + "pidfile"@
    } else {
        bundle_path + "/"@ + "pidfile"@
    }
}

/// Where the runtime is to write the process identifier of the container's entrypoint.
pub fn pidfile_from_params(request: &CreateContainerRequest) -> (path: String)
    ensures
        path@ == spec_pidfile(request@.bundle_path),
{
    let mut path = request.bundle_path.clone();
    let n = request.bundle_path.as_str().unicode_len();
    if n > 0 && request.bundle_path.as_str().get_char(n - 1) != '/' {
        path.append("/");
    }
    path.append("pidfile");
    path
}

/// What was read of the entries of a text list, in order: the text of an
/// entry, or the words of the error that reading it gave.
pub open spec fn entry_views(entries: Seq<Result<String, String>>) -> Seq<
    Result<Seq<char>, Seq<char>>,
> {
    entries.map_values(
        |e: Result<String, String>|
            match e {
                Ok(text) => Ok(text@),
                Err(words) => Err(words@),
            },
    )
}

/// The first entry that could not be read, if there is one.
pub open spec fn first_unread(entries: Seq<Result<Seq<char>, Seq<char>>>) -> Option<int> {
    if exists|i: int| 0 <= i < entries.len() && (#[trigger] entries[i]) is Err {
        Some(
            choose|i: int|
                0 <= i < entries.len() && (#[trigger] entries[i]) is Err && forall|j: int|
                    0 <= j < i ==> (#[trigger] entries[j]) is Ok,
        )
    } else {
        None
    }
}

/// The failure that an unreadable request field gives.
pub open spec fn unreadable(words: Seq<char>) -> FailureView {
    FailureView { kind: FailureKind::Protocol, stage: Stage::Received, message: words }
}

/// The paths that the entries give: all of them in order where every entry
/// was read, the failure of the first unread entry where one was not.
pub open spec fn spec_collect_paths(entries: Seq<Result<Seq<char>, Seq<char>>>) -> Result<
    Seq<Seq<char>>,
    FailureView,
> {
    match first_unread(entries) {
        Some(i) => Err(unreadable(entries[i]->Err_0)),
        None => Ok(entries.map_values(|e: Result<Seq<char>, Seq<char>>| e->Ok_0)),
    }
}

/// Turns what was read of a text list into the list of paths.
pub fn collect_paths(entries: Vec<Result<String, String>>) -> (r: Result<Vec<String>, Failure>)
    ensures
        match r {
            Ok(paths) => spec_collect_paths(entry_views(entries@)) == Ok::<
                Seq<Seq<char>>,
                FailureView,
            >(texts(paths@)),
            Err(failure) => spec_collect_paths(entry_views(entries@)) == Err::<
                Seq<Seq<char>>,
                FailureView,
            >(failure@),
        },
{
    let ghost views = entry_views(entries@);
    let mut paths: Vec<String> = Vec::new();
    let mut i: usize = 0;
    while i < entries.len()
        invariant
            i <= entries.len(),
            views == entry_views(entries@),
            paths.len() == i,
            forall|j: int| 0 <= j < i ==> (#[trigger] views[j]) == Ok::<Seq<char>, Seq<char>>(
                paths[j]@,
            ),
        decreases entries.len() - i,
    {
        match &entries[i] {
            Ok(text) => {
                paths.push(text.clone());
            },
            Err(words) => {
                proof {
                    assert(views[i as int] is Err);
                    let k = first_unread(views)->0;
                    assert(k == i) by {
                        if k < i {
                            assert(views[k] is Ok);
                        }
                        if k > i {
                            assert(views[i as int] is Ok);
                        }
                    }
                }
                return Err(
                    Failure {
                        kind: FailureKind::Protocol,
                        stage: Stage::Received,
                        message: words.clone(),
                    },
                );
            },
        }
        i = i + 1;
    }
    proof {
        assert(first_unread(views) is None) by {
            if exists|k: int| 0 <= k < views.len() && (#[trigger] views[k]) is Err {
                let k = choose|k: int| 0 <= k < views.len() && (#[trigger] views[k]) is Err;
                assert(views[k] is Ok);
            }
        }
        assert(texts(paths@) =~= views.map_values(|e: Result<Seq<char>, Seq<char>>| e->Ok_0));
    }
    Ok(paths)
}

/// Reads the paths out of a text list of a message. Where it succeeds, the
/// paths are the entries of the list, in order. An empty list always gives
/// the empty list of paths.
pub fn path_vec_from_text_list(list: capnp::text_list::Reader) -> (r: Result<Vec<String>, Failure>)
    ensures
        match r {
            Ok(paths) => {
                &&& paths.len() == list_texts(list).len()
                &&& forall|i: int|
                    0 <= i < paths.len() ==> list_texts(list)[i] == Some((#[trigger] paths[i])@)
            },
            Err(failure) => {
                &&& failure@.kind == FailureKind::Protocol
                &&& failure@.stage == Stage::Received
                &&& list_texts(list).len() > 0
            },
        },
{
    let n = text_list_len(&list);
    let mut entries: Vec<Result<String, String>> = Vec::new();
    let mut i: u32 = 0;
    let mut unread = false;
    while i < n && !unread
        invariant
            i <= n,
            n == list_texts(list).len(),
            entries.len() == i,
            unread ==> i > 0 && entries[i - 1] is Err,
            forall|j: int|
                0 <= j < i && !(unread && j == i - 1) ==> (#[trigger] entries[j]) is Ok
                    && list_texts(list)[j] == Some(entries[j]->Ok_0@),
        decreases n - i,
    {
        match text_list_get(&list, i) {
            Ok(text) => {
                entries.push(Ok(text));
            },
            Err(error) => {
                entries.push(Err(error_description(error)));
                unread = true;
            },
        }
        i = i + 1;
    }
    let ghost views = entry_views(entries@);
    proof {
        if unread {
            assert(views[i - 1] is Err);
        } else {
            assert forall|j: int| 0 <= j < views.len() implies (#[trigger] views[j]) is Ok
                && list_texts(list)[j] == Some(views[j]->Ok_0) by {
                assert(entries[j] is Ok);
            }
            assert(first_unread(views) is None);
        }
    }
    let r = collect_paths(entries);
    proof {
        if !unread {
            let paths = r->Ok_0;
            assert(texts(paths@).len() == views.len());
            assert forall|j: int| 0 <= j < paths.len() implies list_texts(list)[j] == Some(
                (#[trigger] paths[j])@,
            ) by {
                assert(texts(paths@)[j] == views[j]->Ok_0);
            }
        }
    }
    r
}

} // verus!
