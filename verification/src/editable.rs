//! Tasks for editable files.
use vstd::prelude::*;

use crate::text::{cat, has_text, same, views};
use crate::value::{empty_object, list_view, Json, JsonView};

verus! {

broadcast use crate::value::group_json;

/// Whether a task belongs to an owner and is among those asked for; an empty list asks for all.
pub open spec fn listed_task(owner: Seq<char>, ids: Seq<Seq<char>>) -> spec_fn(JsonView) -> bool {
    |t: JsonView|
        t.str_at("owner_id"@) == owner && (ids.len() == 0 || (match t.get("task_id"@) {
            Some(JsonView::Str(s)) => ids.contains(s),
            _ => false,
        }))
}

/// The tasks for editable files.
pub struct EditableFileTaskService {
    pub tasks: Vec<Json>,
}

impl EditableFileTaskService {
    pub fn new() -> (r: EditableFileTaskService)
        ensures
            r.tasks@ =~= Seq::<Json>::empty(),
    {
        EditableFileTaskService { tasks: Vec::new() }
    }

    /// The answer to a presentation that was asked for: there is none.
    pub fn submit_ppt(&self) -> (r: Json)
        ensures
            r@ == unsupported("PPT"@),
    {
        submit_unsupported("PPT")
    }

    /// The answer to a layered picture that was asked for: there is none.
    pub fn submit_psd(&self) -> (r: Json)
        ensures
            r@ == unsupported("PSD"@),
    {
        submit_unsupported("PSD")
    }

    /// The place of a file that was made: there is none.
    pub fn public_file_path(&self, file_path: &str) -> (r: Option<String>)
        ensures
            r is None,
    {
        None
    }

    /// The tasks of an owner.
    pub fn list_tasks(&self, identity: &Json, task_ids: &Vec<String>) -> (r: Json)
        ensures
            r@ == empty_object().put(
                "items"@,
                JsonView::Arr(
                    list_view(self.tasks@).filter(listed_task(identity@.str_at("id"@), views(task_ids@))),
                ),
            ),
            forall|t: JsonView| #[trigger]
                r@.items_at("items"@).contains(t) <==> list_view(self.tasks@).contains(t) && t.str_at(
                    "owner_id"@,
                ) == identity@.str_at("id"@) && (task_ids@.len() == 0 || (exists|i: int|
                    0 <= i < task_ids@.len() && t.get("task_id"@) == Some(
                        JsonView::Str((#[trigger] task_ids@[i])@),
                    ))),
    {
        let owner = identity.str_at("id");
        let ghost v = list_view(self.tasks@);
        let ghost keep = listed_task(owner@, views(task_ids@));
        let mut out: Vec<Json> = Vec::new();
        let mut i: usize = 0;
        proof {
            reveal(Seq::filter);
            assert(list_view(out@) =~= v.take(0).filter(keep));
        }
        assert(views(task_ids@).len() == task_ids@.len());
        while i < self.tasks.len()
            invariant
                i <= self.tasks@.len(),
                v == list_view(self.tasks@),
                views(task_ids@).len() == task_ids@.len(),
                keep == listed_task(owner@, views(task_ids@)),
                list_view(out@) == v.take(i as int).filter(keep),
            decreases self.tasks@.len() - i,
        {
            let ghost done = list_view(out@);
            assert(v.take(i + 1).drop_last() =~= v.take(i as int));
            assert(v.take(i + 1).filter(keep) == if keep(v[i as int]) {
                done.push(v[i as int])
            } else {
                done
            }) by {
                reveal(Seq::filter);
            }
            let t = &self.tasks[i];
            let asked = if task_ids.len() == 0 {
                true
            } else {
                match t.get("task_id") {
                    Some(Json::Str(s)) => has_text(task_ids, s.as_str()),
                    _ => false,
                }
            };
            if same(t.str_at("owner_id").as_str(), owner.as_str()) && asked {
                out.push(t.copy());
                assert(list_view(out@) =~= done.push(v[i as int]));
            }
            i += 1;
        }
        assert(v.take(i as int) =~= v);
        let mut o = Json::object();
        o.set("items", Json::Arr(out));
        proof {
            let ids = views(task_ids@);
            assert forall|t: JsonView| #[trigger]
                o@.items_at("items"@).contains(t) <==> v.contains(t) && t.str_at("owner_id"@)
                    == identity@.str_at("id"@) && (task_ids@.len() == 0 || (exists|i: int|
                    0 <= i < task_ids@.len() && t.get("task_id"@) == Some(
                        JsonView::Str((#[trigger] task_ids@[i])@),
                    ))) by {
                crate::lists::lemma_filtered_has(v, keep, t);
                match t.get("task_id"@) {
                    Some(JsonView::Str(s)) => {
                        if ids.contains(s) {
                            let i = ids.index_of(s);
                            assert(task_ids@[i]@ == s);
                        }
                        if exists|i: int| 0 <= i < task_ids@.len() && (#[trigger] task_ids@[i])@ == s {
                            let i = choose|i: int|
                                0 <= i < task_ids@.len() && (#[trigger] task_ids@[i])@ == s;
                            assert(ids[i] == s);
                        }
                    },
                    _ => {},
                }
            }
        }
        o
    }
}

/// The answer to a task that cannot be done.
pub open spec fn unsupported(kind: Seq<char>) -> JsonView {
    empty_object().put(
        "error"@,
        JsonView::Str(
            kind + " export is not available in this build (engine editable-file export pending)"@,
        ),
    )
}

fn submit_unsupported(kind: &str) -> (r: Json)
    ensures
        r@ == unsupported(kind@),
{
    let mut o = Json::object();
    o.set(
        "error",
        Json::Str(
            cat(
                kind,
                " export is not available in this build (engine editable-file export pending)",
            ),
        ),
    );
    o
}

} // verus!
