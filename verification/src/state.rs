//! The store as a sequence of records in insertion order: what each operation
//! finds in it and what it leaves behind.

use vstd::prelude::*;
use crate::clock::Timestamp;
use crate::model::TodoView;

verus! {

/// The store's contents: the records, oldest first.
pub type Records = Seq<TodoView>;

/// Some record of `s` carries the identifier `id`.
pub open spec fn has_id(s: Records, id: Seq<char>) -> bool {
    exists|i: int| 0 <= i < s.len() && (#[trigger] s[i]).id == Some(id)
}

/// Position `i` holds the first record of `s` that carries `id`.
pub open spec fn is_first_at(s: Records, id: Seq<char>, i: int) -> bool {
    &&& 0 <= i < s.len()
    &&& s[i].id == Some(id)
    &&& forall|j: int| 0 <= j < i ==> (#[trigger] s[j]).id != Some(id)
}

/// The position of the first record of `s` that carries `id`, where there is
/// one.
pub open spec fn first_index(s: Records, id: Seq<char>) -> int {
    choose|i: int| is_first_at(s, id, i)
}

/// Every record has an identifier, and none is empty.
pub open spec fn ids_present(s: Records) -> bool {
    forall|i: int|
        0 <= i < s.len() ==> match (#[trigger] s[i]).id {
            Some(id) => id.len() > 0,
            None => false,
        }
}

/// No two records share an identifier.
pub open spec fn ids_distinct(s: Records) -> bool {
    forall|i: int, j: int|
        0 <= i < j < s.len() ==> (#[trigger] s[i]).id != (#[trigger] s[j]).id
}

/// Every record was updated no earlier than it was created.
pub open spec fn stamps_ordered(s: Records) -> bool {
    forall|i: int|
        0 <= i < s.len() ==> match ((#[trigger] s[i]).created_at, s[i].updated_at) {
            (Some(c), Some(u)) => c.le(u),
            _ => false,
        }
}

/// The store's invariant on identifiers: each record has one, it is not
/// empty, and it is the record's alone.
pub open spec fn well_formed(s: Records) -> bool {
    ids_present(s) && ids_distinct(s)
}

/// The record that a creation with the drawn identifier `id` stores at
/// instant `at`.
pub open spec fn created(id: Seq<char>, title: Seq<char>, content: Seq<char>, at: Timestamp)
    -> TodoView {
    TodoView {
        id: Some(id),
        title,
        content,
        completed: None,
        created_at: Some(at),
        updated_at: Some(at),
    }
}

/// The fields of an update's payload, as plain values.
pub struct Patch {
    pub title: Option<Seq<char>>,
    pub content: Option<Seq<char>>,
    pub completed: Option<bool>,
}

/// The record `t` after an update with payload `p` at instant `at`: a text
/// that the payload holds replaces the stored one, the completion flag is
/// the payload's whether it holds one or not, and the update time is `at`.
pub open spec fn patched(t: TodoView, p: Patch, at: Timestamp) -> TodoView {
    TodoView {
        id: t.id,
        title: match p.title {
            Some(x) => x,
            None => t.title,
        },
        content: match p.content {
            Some(x) => x,
            None => t.content,
        },
        completed: p.completed,
        created_at: t.created_at,
        updated_at: Some(at),
    }
}

/// The store after a creation: the new record stands last.
pub open spec fn after_create(
    s: Records,
    id: Seq<char>,
    title: Seq<char>,
    content: Seq<char>,
    at: Timestamp,
) -> Records {
    s.push(created(id, title, content, at))
}

/// What a lookup of `id` finds: the first record that carries it.
pub open spec fn lookup(s: Records, id: Seq<char>) -> Option<TodoView> {
    if has_id(s, id) {
        Some(s[first_index(s, id)])
    } else {
        None
    }
}

/// The store after an update of `id`: the first record that carries it is
/// patched in place; without such a record nothing changes.
pub open spec fn after_update(s: Records, id: Seq<char>, p: Patch, at: Timestamp) -> Records {
    if has_id(s, id) {
        s.update(first_index(s, id), patched(s[first_index(s, id)], p, at))
    } else {
        s
    }
}

/// The store after a deletion of `id`: the first record that carries it is
/// gone and the others keep their order; without such a record nothing
/// changes.
pub open spec fn after_delete(s: Records, id: Seq<char>) -> Records {
    if has_id(s, id) {
        s.remove(first_index(s, id))
    } else {
        s
    }
}

/// Where page `page` of `limit` records begins, for a page from the first
/// on: the records before it are those of the earlier pages.
pub open spec fn page_offset(limit: nat, page: nat) -> int {
    (page - 1) * limit
}

/// Page `page` of the store, `limit` records to a page, pages counted from
/// one: the records from the page's offset on, at most `limit` of them, in
/// the store's order. A page that begins behind the last record is empty,
/// and so is page zero, which lies before the first.
pub open spec fn page_of(s: Records, limit: nat, page: nat) -> Records {
    let offset = page_offset(limit, page);
    if page == 0 || offset >= s.len() {
        Seq::empty()
    } else if offset + limit >= s.len() {
        s.subrange(offset, s.len() as int)
    } else {
        s.subrange(offset, offset + limit)
    }
}

/// The first position that carries an identifier is determined: whatever
/// position is a first one is `first_index`.
pub proof fn lemma_first_index_is(s: Records, id: Seq<char>, i: int)
    requires
        is_first_at(s, id, i),
    ensures
        has_id(s, id),
        first_index(s, id) == i,
{
    let k = first_index(s, id);
    assert(is_first_at(s, id, k));
    if k < i {
        assert(s[k].id != Some(id));
    } else if i < k {
        assert(s[i].id != Some(id));
    }
}

/// Among the positions up to `n` that carry `id` there is a first one.
proof fn lemma_first_below(s: Records, id: Seq<char>, n: int) -> (k: int)
    requires
        0 <= n < s.len(),
        s[n].id == Some(id),
    ensures
        is_first_at(s, id, k),
        k <= n,
    decreases n,
{
    if exists|j: int| 0 <= j < n && (#[trigger] s[j]).id == Some(id) {
        let j = choose|j: int| 0 <= j < n && (#[trigger] s[j]).id == Some(id);
        lemma_first_below(s, id, j)
    } else {
        n
    }
}

/// An identifier that the store holds has a first position.
pub proof fn lemma_first_index_exists(s: Records, id: Seq<char>)
    requires
        has_id(s, id),
    ensures
        is_first_at(s, id, first_index(s, id)),
{
    let n = choose|i: int| 0 <= i < s.len() && (#[trigger] s[i]).id == Some(id);
    let k = lemma_first_below(s, id, n);
    lemma_first_index_is(s, id, k);
}

} // verus!
