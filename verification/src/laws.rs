//! What holds of the store's operations taken together.

use vstd::prelude::*;
use crate::clock::Timestamp;
use crate::model::TodoView;
use crate::state::{
    after_create, after_delete, after_update, created, first_index, has_id, ids_distinct,
    is_first_at, lemma_first_index_exists, lemma_first_index_is, lookup, page_of,
    page_offset, stamps_ordered, well_formed, Patch, Records,
};

verus! {

/// What one creation hands to the store: the identifier that was drawn, the
/// payload's texts and the clock's reading.
pub struct Creation {
    pub id: Seq<char>,
    pub title: Seq<char>,
    pub content: Seq<char>,
    pub at: Timestamp,
}

/// The store after the creations `calls`, made one after the other.
pub open spec fn after_creates(s: Records, calls: Seq<Creation>) -> Records
    decreases calls.len(),
{
    if calls.len() == 0 {
        s
    } else {
        let c = calls.last();
        after_create(after_creates(s, calls.drop_last()), c.id, c.title, c.content, c.at)
    }
}

/// Every identifier drawn for `calls` is non-empty, new to the store `s`,
/// and drawn once only.
pub open spec fn draws_fresh(s: Records, calls: Seq<Creation>) -> bool {
    &&& forall|k: int|
        0 <= k < calls.len() ==> (#[trigger] calls[k]).id.len() > 0 && !has_id(s, calls[k].id)
    &&& forall|k: int, l: int|
        0 <= k < l < calls.len() ==> (#[trigger] calls[k]).id != (#[trigger] calls[l]).id
}

/// A creation under an identifier that is not empty and that no record
/// carries yet keeps the store well formed.
pub proof fn law_create_keeps_ids_distinct(
    s: Records,
    id: Seq<char>,
    title: Seq<char>,
    content: Seq<char>,
    at: Timestamp,
)
    requires
        well_formed(s),
        id.len() > 0,
        !has_id(s, id),
    ensures
        well_formed(after_create(s, id, title, content, at)),
{
    let s2 = after_create(s, id, title, content, at);
    assert forall|i: int, j: int| 0 <= i < j < s2.len() implies (#[trigger] s2[i]).id != (
    #[trigger] s2[j]).id by {
        assert(s2[i] == s[i]);
        if j < s.len() {
            assert(s2[j] == s[j]);
        } else {
            assert(s[i].id != Some(id));
        }
    }
    assert forall|i: int| 0 <= i < s2.len() implies match (#[trigger] s2[i]).id {
        Some(x) => x.len() > 0,
        None => false,
    } by {
        if i < s.len() {
            assert(s2[i] == s[i]);
        }
    }
}

/// After any run of creations the records stand behind those that were
/// there, one for each creation and in the order of the calls, each under
/// the identifier drawn for it.
pub proof fn law_creates_append_in_order(s: Records, calls: Seq<Creation>)
    ensures
        after_creates(s, calls).len() == s.len() + calls.len(),
        forall|k: int| 0 <= k < s.len() ==> #[trigger] after_creates(s, calls)[k] == s[k],
        forall|k: int|
            0 <= k < calls.len() ==> #[trigger] after_creates(s, calls)[s.len() + k] == created(
                calls[k].id,
                calls[k].title,
                calls[k].content,
                calls[k].at,
            ),
    decreases calls.len(),
{
    if calls.len() > 0 {
        let init = calls.drop_last();
        law_creates_append_in_order(s, init);
        let before = after_creates(s, init);
        let after = after_creates(s, calls);
        assert forall|k: int| 0 <= k < s.len() implies #[trigger] after[k] == s[k] by {
            assert(after[k] == before[k]);
        }
        assert forall|k: int| 0 <= k < calls.len() implies #[trigger] after[s.len() + k]
            == created(calls[k].id, calls[k].title, calls[k].content, calls[k].at) by {
            if k < init.len() {
                assert(after[s.len() + k] == before[s.len() + k]);
                assert(init[k] == calls[k]);
            }
        }
    }
}

/// Whatever creations are made on a well-formed store, the identifiers of
/// all records are pairwise distinct afterwards, as long as no draw repeats
/// an identifier that is in the store or was drawn before.
pub proof fn law_creates_keep_ids_distinct(s: Records, calls: Seq<Creation>)
    requires
        well_formed(s),
        draws_fresh(s, calls),
    ensures
        well_formed(after_creates(s, calls)),
{
    law_creates_append_in_order(s, calls);
    let after = after_creates(s, calls);
    let n = s.len() as int;
    assert forall|i: int| 0 <= i < after.len() implies match (#[trigger] after[i]).id {
        Some(x) => x.len() > 0,
        None => false,
    } by {
        if i < n {
            assert(after[i] == s[i]);
        } else {
            assert(after[n + (i - n)].id == Some(calls[i - n].id));
        }
    }
    assert forall|i: int, j: int| 0 <= i < j < after.len() implies (#[trigger] after[i]).id != (
    #[trigger] after[j]).id by {
        if j < n {
            assert(after[i] == s[i] && after[j] == s[j]);
        } else {
            assert(after[n + (j - n)].id == Some(calls[j - n].id));
            if i < n {
                assert(after[i] == s[i]);
                assert(!has_id(s, calls[j - n].id));
            } else {
                assert(after[n + (i - n)].id == Some(calls[i - n].id));
            }
        }
    }
}

/// A lookup of the identifier under which a record was just created finds
/// that record, with the texts of the payload, provided the identifier was
/// new to the store.
pub proof fn law_create_then_get(
    s: Records,
    id: Seq<char>,
    title: Seq<char>,
    content: Seq<char>,
    at: Timestamp,
)
    requires
        !has_id(s, id),
    ensures
        lookup(after_create(s, id, title, content, at), id) == Some(
            created(id, title, content, at),
        ),
        created(id, title, content, at).title == title,
        created(id, title, content, at).content == content,
{
    let s2 = after_create(s, id, title, content, at);
    let n = s.len() as int;
    assert(is_first_at(s2, id, n)) by {
        assert forall|j: int| 0 <= j < n implies (#[trigger] s2[j]).id != Some(id) by {
            assert(s2[j] == s[j]);
        }
    }
    lemma_first_index_is(s2, id, n);
}

/// An update touches one record only, the first that carries the
/// identifier. There it sets the completion flag and the update
/// time, replaces a text that the payload holds, and leaves a text that the
/// payload lacks, the identifier and the creation time as they were.
pub proof fn law_update_changes_only_what_it_names(
    s: Records,
    id: Seq<char>,
    p: Patch,
    at: Timestamp,
)
    requires
        has_id(s, id),
    ensures
        ({
            let i = first_index(s, id);
            let s2 = after_update(s, id, p, at);
            &&& 0 <= i < s.len() == s2.len()
            &&& forall|k: int| 0 <= k < s.len() && k != i ==> #[trigger] s2[k] == s[k]
            &&& s2[i].id == s[i].id
            &&& s2[i].created_at == s[i].created_at
            &&& s2[i].completed == p.completed
            &&& s2[i].updated_at == Some(at)
            &&& (p.title is None ==> s2[i].title == s[i].title)
            &&& (p.content is None ==> s2[i].content == s[i].content)
            &&& (p.title is Some ==> s2[i].title == p.title->0)
            &&& (p.content is Some ==> s2[i].content == p.content->0)
        }),
{
    lemma_first_index_exists(s, id);
}

/// An update that only completes a record changes nothing but the
/// completion flag and the update time.
pub proof fn law_completing_keeps_texts(s: Records, id: Seq<char>, at: Timestamp)
    requires
        has_id(s, id),
    ensures
        ({
            let i = first_index(s, id);
            let p = Patch { title: None, content: None, completed: Some(true) };
            let s2 = after_update(s, id, p, at);
            s2 == s.update(
                i,
                TodoView { completed: Some(true), updated_at: Some(at), ..s[i] },
            )
        }),
{
    lemma_first_index_exists(s, id);
}

/// Once a record is deleted from a store whose identifiers are distinct, no
/// record carries its identifier, so a second deletion finds nothing and
/// changes nothing.
pub proof fn law_delete_is_final(s: Records, id: Seq<char>)
    requires
        ids_distinct(s),
        has_id(s, id),
    ensures
        !has_id(after_delete(s, id), id),
        lookup(after_delete(s, id), id) is None,
        after_delete(after_delete(s, id), id) == after_delete(s, id),
{
    lemma_first_index_exists(s, id);
    let i = first_index(s, id);
    let s2 = after_delete(s, id);
    assert forall|k: int| 0 <= k < s2.len() implies (#[trigger] s2[k]).id != Some(id) by {
        if k < i {
            assert(s2[k] == s[k]);
            assert(s[k].id != s[i].id);
        } else {
            assert(s2[k] == s[k + 1]);
            assert(s[i].id != s[k + 1].id);
        }
    }
}

/// For an identifier that no record carries, a lookup finds nothing, and an
/// update and a deletion leave the store as it was.
pub proof fn law_absent_id_misses(s: Records, id: Seq<char>, p: Patch, at: Timestamp)
    requires
        !has_id(s, id),
    ensures
        lookup(s, id) is None,
        after_update(s, id, p, at) == s,
        after_delete(s, id) == s,
{
}

/// A page holds the records that stand in the store from the page's offset
/// on, one after the other and never more than the page size. Only a page
/// from the first on holds any, and one that the store fills is full.
pub proof fn law_page_follows_store_order(s: Records, limit: nat, page: nat)
    ensures
        page_of(s, limit, page).len() <= limit,
        page_of(s, limit, page).len() <= s.len(),
        page == 0 ==> page_of(s, limit, page).len() == 0,
        page >= 1 ==> page_offset(limit, page) >= 0,
        forall|k: int|
            0 <= k < page_of(s, limit, page).len() ==> page >= 1 && page_offset(limit, page) + k
                < s.len() && #[trigger] page_of(s, limit, page)[k] == s[page_offset(limit, page)
                + k],
        page >= 1 && page_offset(limit, page) + limit <= s.len() ==> page_of(
            s,
            limit,
            page,
        ).len() == limit,
{
    if page >= 1 {
        assert(page_offset(limit, page) >= 0) by (nonlinear_arith)
            requires
                page >= 1,
                page_offset(limit, page) == (page - 1) * limit,
        ;
    }
}

/// An update moves no record: every position holds the record of the same
/// identifier and creation time as before.
pub proof fn law_update_keeps_order(s: Records, id: Seq<char>, p: Patch, at: Timestamp)
    ensures
        after_update(s, id, p, at).len() == s.len(),
        forall|k: int|
            0 <= k < s.len() ==> (#[trigger] after_update(s, id, p, at)[k]).id == s[k].id
                && after_update(s, id, p, at)[k].created_at == s[k].created_at,
{
    if has_id(s, id) {
        lemma_first_index_exists(s, id);
    }
}

/// A listing after an update shows the records of the same identifiers, in
/// the same order, as the same listing before it.
pub proof fn law_update_keeps_pages(
    s: Records,
    id: Seq<char>,
    p: Patch,
    at: Timestamp,
    limit: nat,
    page: nat,
)
    ensures
        page_of(after_update(s, id, p, at), limit, page).len() == page_of(s, limit, page).len(),
        forall|k: int|
            0 <= k < page_of(s, limit, page).len() ==> (#[trigger] page_of(
                after_update(s, id, p, at),
                limit,
                page,
            )[k]).id == page_of(s, limit, page)[k].id,
{
    let s2 = after_update(s, id, p, at);
    law_update_keeps_order(s, id, p, at);
    law_page_follows_store_order(s, limit, page);
    law_page_follows_store_order(s2, limit, page);
    assert forall|k: int| 0 <= k < page_of(s, limit, page).len() implies (#[trigger] page_of(
        s2,
        limit,
        page,
    )[k]).id == page_of(s, limit, page)[k].id by {
        assert(page_of(s2, limit, page)[k] == s2[page_offset(limit, page) + k]);
        assert(page_of(s, limit, page)[k] == s[page_offset(limit, page) + k]);
    }
}

/// A deletion takes one record out and closes the gap. The records before it keep their positions, those behind
/// it move up by one.
pub proof fn law_delete_keeps_order(s: Records, id: Seq<char>)
    requires
        has_id(s, id),
    ensures
        ({
            let i = first_index(s, id);
            let s2 = after_delete(s, id);
            &&& 0 <= i < s.len()
            &&& s2.len() == s.len() - 1
            &&& forall|k: int| 0 <= k < i ==> #[trigger] s2[k] == s[k]
            &&& forall|k: int| i <= k < s2.len() ==> #[trigger] s2[k] == s[k + 1]
        }),
{
    lemma_first_index_exists(s, id);
}

/// An update keeps a well-formed store well formed.
pub proof fn law_update_keeps_well_formed(s: Records, id: Seq<char>, p: Patch, at: Timestamp)
    requires
        well_formed(s),
    ensures
        well_formed(after_update(s, id, p, at)),
{
    if has_id(s, id) {
        lemma_first_index_exists(s, id);
        let u = after_update(s, id, p, at);
        assert forall|k: int| 0 <= k < u.len() implies match (#[trigger] u[k]).id {
            Some(x) => x.len() > 0,
            None => false,
        } by {
            assert(u[k].id == s[k].id);
        }
        assert forall|a: int, b: int| 0 <= a < b < u.len() implies (#[trigger] u[a]).id != (
        #[trigger] u[b]).id by {
            assert(u[a].id == s[a].id && u[b].id == s[b].id);
        }
    }
}

/// A deletion keeps a well-formed store well formed.
pub proof fn law_delete_keeps_well_formed(s: Records, id: Seq<char>)
    requires
        well_formed(s),
    ensures
        well_formed(after_delete(s, id)),
{
    if has_id(s, id) {
        lemma_first_index_exists(s, id);
        let i = first_index(s, id);
        let d = after_delete(s, id);
        assert forall|k: int| 0 <= k < d.len() implies match (#[trigger] d[k]).id {
            Some(x) => x.len() > 0,
            None => false,
        } by {
            let k2 = if k < i { k } else { k + 1 };
            assert(d[k] == s[k2]);
        }
        assert forall|a: int, b: int| 0 <= a < b < d.len() implies (#[trigger] d[a]).id != (
        #[trigger] d[b]).id by {
            let a2 = if a < i { a } else { a + 1 };
            let b2 = if b < i { b } else { b + 1 };
            assert(d[a] == s[a2] && d[b] == s[b2]);
            assert(s[a2].id != s[b2].id);
        }
    }
}

/// A creation keeps the creation and update times in order, and an update
/// does so whenever its instant is not earlier than the record's creation.
pub proof fn law_stamps_stay_ordered(
    s: Records,
    id: Seq<char>,
    title: Seq<char>,
    content: Seq<char>,
    p: Patch,
    at: Timestamp,
)
    requires
        stamps_ordered(s),
    ensures
        stamps_ordered(after_create(s, id, title, content, at)),
        stamps_ordered(after_delete(s, id)),
        has_id(s, id) && s[first_index(s, id)].created_at->0.le(at) ==> stamps_ordered(
            after_update(s, id, p, at),
        ),
{
    let c = after_create(s, id, title, content, at);
    assert forall|k: int| 0 <= k < c.len() implies match ((#[trigger] c[k]).created_at, c[k].updated_at) {
        (Some(x), Some(y)) => x.le(y),
        _ => false,
    } by {
        if k < s.len() {
            assert(c[k] == s[k]);
        }
    }
    if has_id(s, id) {
        lemma_first_index_exists(s, id);
        let i = first_index(s, id);
        let d = after_delete(s, id);
        assert forall|k: int| 0 <= k < d.len() implies match ((#[trigger] d[k]).created_at, d[k].updated_at) {
            (Some(x), Some(y)) => x.le(y),
            _ => false,
        } by {
            if k < i {
                assert(d[k] == s[k]);
            } else {
                assert(d[k] == s[k + 1]);
            }
        }
        if s[i].created_at->0.le(at) {
            let u = after_update(s, id, p, at);
            assert forall|k: int| 0 <= k < u.len() implies match ((#[trigger] u[k]).created_at, u[k].updated_at) {
                (Some(x), Some(y)) => x.le(y),
                _ => false,
            } by {
                if k != i {
                    assert(u[k] == s[k]);
                } else {
                    assert(s[i].created_at is Some);
                }
            }
        }
    }
}

} // verus!
