//! Properties of the store's operations over the table model, and the facts
//! about keys they rest on.

use vstd::prelude::*;
use crate::keys::{
    Client, client_hash, is_prefix, moved_stage, open_prefix, open_stage, open_status, range_of,
    sort_key_of, time_key_of,
};
use crate::record::{RowView, moved_row, opened_row};
use crate::store::{
    Table, has_open_row, is_open_row, key_of, open_key_of, open_page_ok, put_row, replaced,
    updated, well_keyed, close_effect, rows_with_id, close_all_effect,
};

verus! {

/// A key of joined segments starts with its first segment.
pub proof fn lemma_range_starts_with_first(parts: Seq<Seq<char>>)
    requires
        parts.len() >= 1,
    ensures
        is_prefix(parts[0], range_of(parts)),
    decreases parts.len(),
{
    if parts.len() > 1 {
        lemma_range_starts_with_first(parts.drop_last());
        let acc = range_of(parts.drop_last());
        assert(parts.drop_last()[0] == parts[0]);
        let whole = range_of(parts);
        assert(whole.subrange(0, parts[0].len() as int) =~= acc.subrange(0, parts[0].len() as int));
    } else {
        assert(parts =~= seq![parts[0]]);
        lemma_range_single(parts[0]);
        assert(parts[0].subrange(0, parts[0].len() as int) =~= parts[0]);
    }
}

/// A key of one segment is that segment.
pub proof fn lemma_range_single(x: Seq<char>)
    ensures
        range_of(seq![x]) == x,
{
    assert(seq![x].drop_last() =~= Seq::<Seq<char>>::empty());
    assert(range_of(Seq::<Seq<char>>::empty()) == Seq::<char>::empty());
    assert(range_of(seq![x]) =~= x);
}

/// Appending a segment to a non-empty key puts `#` and the segment after it.
pub proof fn lemma_range_push(parts: Seq<Seq<char>>, x: Seq<char>)
    requires
        range_of(parts).len() > 0,
    ensures
        range_of(parts.push(x)) == range_of(parts).push('#') + x,
{
    assert(parts.push(x).drop_last() =~= parts);
}

proof fn lemma_literals()
    ensures
        open_stage().len() == 12,
        open_stage()[0] == 'c',
        moved_stage().len() == 11,
        moved_stage()[0] == 'i',
        open_status().len() == 4,
        "conversation"@ == open_stage(),
{
    reveal_strlit("conversation");
    reveal_strlit("interaction");
    reveal_strlit("OPEN");
}

/// The sort key of a session spelled out.
pub proof fn lemma_sort_key(status: Seq<char>, id: Seq<char>)
    ensures
        sort_key_of(status, id) == open_stage().push('#') + status + seq!['#'] + id,
{
    lemma_literals();
    let c = open_stage();
    assert(seq![c, status, id].drop_last() =~= seq![c, status]);
    assert(seq![c, status].drop_last() =~= seq![c]);
    lemma_range_single(c);
    lemma_range_push(seq![c], status);
    lemma_range_push(seq![c, status], id);
    assert(range_of(seq![c, status, id]) =~= c.push('#') + status + seq!['#'] + id);
}

/// Two statuses of one session never share a sort key.
pub proof fn lemma_sort_key_status_injective(s1: Seq<char>, s2: Seq<char>, id: Seq<char>)
    requires
        sort_key_of(s1, id) == sort_key_of(s2, id),
    ensures
        s1 == s2,
{
    lemma_sort_key(s1, id);
    lemma_sort_key(s2, id);
    let c = open_stage();
    let k1 = sort_key_of(s1, id);
    let s2k = sort_key_of(s2, id);
    assert(k1.len() == c.len() + 1 + s1.len() + 1 + id.len());
    assert(s2k.len() == c.len() + 1 + s2.len() + 1 + id.len());
    assert(s1.len() == s2.len());
    let lo: int = c.len() as int + 1;
    assert(k1.subrange(lo, lo + s1.len()) =~= s1);
    assert(sort_key_of(s2, id).subrange(lo, lo + s2.len()) =~= s2);
}

/// A newly opened row is found by the open-session query of its client.
pub proof fn lemma_opened_row_is_open(
    client: Client,
    id: Seq<char>,
    metadata: Seq<char>,
    flow_id: Seq<char>,
    step_id: Seq<char>,
    now: Seq<char>,
)
    ensures
        is_open_row(opened_row(client, id, metadata, flow_id, step_id, now), client_hash(client)),
{
    lemma_literals();
    let c = open_stage();
    let o = open_status();
    let e = Seq::<char>::empty();
    assert(seq![c, o].drop_last() =~= seq![c]);
    lemma_range_single(c);
    lemma_range_push(seq![c], o);
    let a = range_of(seq![c, o]);
    assert(a.len() > 0);
    lemma_range_push(seq![c, o], e);
    assert(seq![c, o].push(e) =~= seq![c, o, e]);
    assert(open_prefix() =~= a.push('#'));
    lemma_range_push(seq![c, o], now);
    assert(seq![c, o].push(now) =~= seq![c, o, now]);
    lemma_range_push(seq![c, o, now], id);
    assert(seq![c, o, now].push(id) =~= seq![c, o, now, id]);
    let k = time_key_of(c, o, now, id);
    assert(k.subrange(0, a.len() as int + 1) =~= a.push('#'));
}

/// A row moved out of its first status is never found as open.
pub proof fn lemma_moved_row_not_open(r: RowView, status: Seq<char>, now: Seq<char>, hash: Seq<char>)
    ensures
        !is_open_row(moved_row(r, status, now), hash),
{
    lemma_literals();
    let parts = seq![moved_stage(), status, now, r.id];
    lemma_range_starts_with_first(parts);
    let k = range_of(parts);
    assert(k[0] == moved_stage()[0]) by {
        assert(k.subrange(0, moved_stage().len() as int)[0] == k[0]);
    }
    let p = open_prefix();
    let q = seq![open_stage(), open_status(), Seq::<char>::empty()];
    lemma_range_starts_with_first(q);
    assert(p[0] == open_stage()[0]) by {
        assert(p.subrange(0, open_stage().len() as int)[0] == p[0]);
    }
    if is_prefix(p, k) {
        assert(k.subrange(0, p.len() as int)[0] == k[0]);
    }
}

/// Creating a session for a client with no open session, then querying its
/// open session, yields exactly the row created: same id, flow, step and
/// stored metadata, with status `OPEN`.
pub proof fn create_then_find(
    t: Table,
    client: Client,
    id: Seq<char>,
    metadata: Seq<char>,
    flow_id: Seq<char>,
    step_id: Seq<char>,
    now: Seq<char>,
    page: Seq<RowView>,
)
    requires
        !has_open_row(t, client_hash(client)),
        open_page_ok(
            put_row(t, opened_row(client, id, metadata, flow_id, step_id, now)),
            client_hash(client),
            page,
        ),
    ensures
        page.len() == 1,
        page[0] == opened_row(client, id, metadata, flow_id, step_id, now),
        page[0].flow_id == flow_id && page[0].step_id == step_id && page[0].metadata == metadata,
        page[0].status == open_status(),
{
    let row = opened_row(client, id, metadata, flow_id, step_id, now);
    let hash = client_hash(client);
    let t2 = put_row(t, row);
    lemma_opened_row_is_open(client, id, metadata, flow_id, step_id, now);
    assert(t2.contains_key(key_of(row)) && is_open_row(t2[key_of(row)], hash));
    assert(has_open_row(t2, hash));
    let k = choose|k: (Seq<char>, Seq<char>)|
        #[trigger] t2.contains_key(k) && t2[k] == page[0] && is_open_row(page[0], hash);
    if k != key_of(row) {
        assert(t.contains_key(k) && is_open_row(t[k], hash));
    }
}

/// Closing a session that has no open row writes nothing.
pub proof fn close_absent_is_noop(
    t: Table,
    client: Client,
    id: Seq<char>,
    status: Seq<char>,
    now: Seq<char>,
)
    requires
        !t.contains_key(open_key_of(client, id)),
    ensures
        close_effect(t, open_key_of(client, id), status, now) == t,
{
}

/// After closing the only open session of a client, the client has no open
/// session, nothing is left under the open key, and the session's one row
/// sits under the key of its new status.
pub proof fn close_relocates(
    t: Table,
    client: Client,
    id: Seq<char>,
    status: Seq<char>,
    now: Seq<char>,
)
    requires
        well_keyed(t),
        t.contains_key(open_key_of(client, id)),
        rows_with_id(t, id) == set![open_key_of(client, id)],
        forall|k: (Seq<char>, Seq<char>)|
            #[trigger] t.contains_key(k) && is_open_row(t[k], client_hash(client)) ==> k
                == open_key_of(client, id),
        status != open_status(),
    ensures
        ({
            let t2 = close_effect(t, open_key_of(client, id), status, now);
            let nk = (client_hash(client), sort_key_of(status, id));
            &&& !t2.contains_key(open_key_of(client, id))
            &&& !has_open_row(t2, client_hash(client))
            &&& forall|page: Seq<RowView>|
                open_page_ok(t2, client_hash(client), page) ==> page.len() == 0
            &&& t2.contains_key(nk)
            &&& t2[nk] == moved_row(t[open_key_of(client, id)], status, now)
            &&& rows_with_id(t2, id) == set![nk]
        }),
{
    let k = open_key_of(client, id);
    let hash = client_hash(client);
    let r = t[k];
    assert(rows_with_id(t, id).contains(k));
    assert(key_of(r) == k);
    let m = moved_row(r, status, now);
    let nk = (hash, sort_key_of(status, id));
    assert(key_of(m) == nk);
    if nk == k {
        lemma_sort_key_status_injective(status, open_status(), id);
    }
    let t2 = t.remove(k).insert(nk, m);
    assert(close_effect(t, k, status, now) == t2);
    lemma_moved_row_not_open(r, status, now, hash);
    assert forall|k2: (Seq<char>, Seq<char>)| #[trigger] t2.contains_key(k2) implies !is_open_row(
        t2[k2],
        hash,
    ) by {
        if k2 != nk {
            assert(t.contains_key(k2) && k2 != k);
        }
    }
    assert forall|k2: (Seq<char>, Seq<char>)| #[trigger]
        rows_with_id(t2, id).contains(k2) <==> set![nk].contains(k2) by {
        if k2 != nk && t2.contains_key(k2) && t2[k2].id == id {
            assert(rows_with_id(t, id).contains(k2));
        }
    }
    assert(rows_with_id(t2, id) =~= set![nk]);
}

/// Two closes of one session that both read its open row: the first moves
/// it, the second is refused and changes nothing, and the session ends with
/// exactly one row, under its new key.
pub proof fn concurrent_closes(
    t: Table,
    client: Client,
    id: Seq<char>,
    status1: Seq<char>,
    now1: Seq<char>,
    status2: Seq<char>,
    now2: Seq<char>,
)
    requires
        well_keyed(t),
        t.contains_key(open_key_of(client, id)),
        rows_with_id(t, id) == set![open_key_of(client, id)],
        status1 != open_status(),
    ensures
        ({
            let k = open_key_of(client, id);
            let r = t[k];
            let first = replaced(t, key_of(r), moved_row(r, status1, now1));
            &&& first is Some
            &&& replaced(first->0, key_of(r), moved_row(r, status2, now2)) is None
            &&& rows_with_id(first->0, id) == set![(client_hash(client), sort_key_of(status1, id))]
        }),
{
    let k = open_key_of(client, id);
    let r = t[k];
    assert(rows_with_id(t, id).contains(k));
    assert(key_of(r) == k);
    let m = moved_row(r, status1, now1);
    let nk = (client_hash(client), sort_key_of(status1, id));
    assert(key_of(m) == nk);
    if nk == k {
        lemma_sort_key_status_injective(status1, open_status(), id);
    }
    let t1 = t.remove(k).insert(nk, m);
    assert(!t1.contains_key(k));
    assert forall|k2: (Seq<char>, Seq<char>)| #[trigger]
        rows_with_id(t1, id).contains(k2) <==> set![nk].contains(k2) by {
        if k2 != nk && t1.contains_key(k2) && t1[k2].id == id {
            assert(rows_with_id(t, id).contains(k2));
        }
    }
    assert(rows_with_id(t1, id) =~= set![nk]);
}

/// An update never creates a row: with no row under its key it is refused.
pub proof fn update_never_creates(
    t: Table,
    k: (Seq<char>, Seq<char>),
    now: Seq<char>,
    flow_id: Option<Seq<char>>,
    step_id: Option<Seq<char>>,
)
    requires
        !t.contains_key(k),
    ensures
        updated(t, k, now, flow_id, step_id) is None,
{
}

/// An update that gives only a flow changes the flow and the last
/// interaction time of that one row, and nothing else.
pub proof fn update_flow_only(
    t: Table,
    k: (Seq<char>, Seq<char>),
    now: Seq<char>,
    flow_id: Seq<char>,
)
    requires
        t.contains_key(k),
    ensures
        updated(t, k, now, Some(flow_id), None) == Some(
            t.insert(k, RowView { flow_id, last_interaction_at: now, ..t[k] }),
        ),
        updated(t, k, now, Some(flow_id), None)->0[k].step_id == t[k].step_id,
{
}

pub open spec fn new_key(r: RowView, status: Seq<char>, now: Seq<char>) -> (Seq<char>, Seq<char>) {
    key_of(moved_row(r, status, now))
}

/// Rows present under their keys, whose old and new keys never collide.
pub open spec fn movable(t: Table, rows: Seq<RowView>, status: Seq<char>, now: Seq<char>) -> bool {
    &&& forall|i: int|
        0 <= i < rows.len() ==> #[trigger] t.contains_key(key_of(rows[i])) && t[key_of(rows[i])]
            == rows[i]
    &&& forall|i: int, j: int|
        0 <= i < rows.len() && 0 <= j < rows.len() && i != j ==> key_of(#[trigger] rows[i])
            != key_of(#[trigger] rows[j])
    &&& forall|i: int, j: int|
        0 <= i < rows.len() && 0 <= j < rows.len() ==> new_key(#[trigger] rows[i], status, now)
            != key_of(#[trigger] rows[j])
    &&& forall|i: int, j: int|
        0 <= i < rows.len() && 0 <= j < rows.len() && i != j ==> new_key(
            #[trigger] rows[i],
            status,
            now,
        ) != new_key(#[trigger] rows[j], status, now)
}

proof fn lemma_close_all(t: Table, rows: Seq<RowView>, status: Seq<char>, now: Seq<char>)
    requires
        movable(t, rows, status, now),
    ensures
        ({
            let t2 = close_all_effect(t, rows, status, now);
            &&& forall|i: int|
                0 <= i < rows.len() ==> #[trigger] t2.contains_key(new_key(rows[i], status, now))
                    && t2[new_key(rows[i], status, now)] == moved_row(rows[i], status, now)
            &&& forall|k: (Seq<char>, Seq<char>)| #[trigger]
                t2.contains_key(k) ==> (exists|i: int|
                    0 <= i < rows.len() && k == new_key(#[trigger] rows[i], status, now)) || (
                t.contains_key(k) && t2[k] == t[k] && forall|i: int|
                    0 <= i < rows.len() ==> k != key_of(#[trigger] rows[i]))
            &&& forall|k: (Seq<char>, Seq<char>)|
                #![trigger t.contains_key(k)]
                t.contains_key(k) && (forall|i: int|
                    0 <= i < rows.len() ==> k != key_of(#[trigger] rows[i])) && (forall|i: int|
                    0 <= i < rows.len() ==> k != new_key(#[trigger] rows[i], status, now))
                    ==> t2.contains_key(k) && t2[k] == t[k]
        }),
    decreases rows.len(),
{
    if rows.len() > 0 {
        let r0 = rows[0];
        let ok0 = key_of(r0);
        let nk0 = new_key(r0, status, now);
        let m0 = moved_row(r0, status, now);
        assert(t.contains_key(ok0));
        let t1 = t.remove(ok0).insert(nk0, m0);
        assert(replaced(t, ok0, m0) == Some(t1));
        let rest = rows.drop_first();
        assert forall|j: int| 0 <= j < rest.len() implies #[trigger] t1.contains_key(key_of(rest[j]))
            && t1[key_of(rest[j])] == rest[j] by {
            assert(rest[j] == rows[j + 1]);
            assert(key_of(rows[j + 1]) != ok0);
            assert(nk0 != key_of(rows[j + 1]));
            assert(t.contains_key(key_of(rows[j + 1])));
        }
        assert forall|i: int, j: int|
            0 <= i < rest.len() && 0 <= j < rest.len() && i != j implies key_of(#[trigger] rest[i])
            != key_of(#[trigger] rest[j]) by {
            assert(rest[i] == rows[i + 1] && rest[j] == rows[j + 1]);
        }
        assert forall|i: int, j: int|
            0 <= i < rest.len() && 0 <= j < rest.len() implies new_key(#[trigger] rest[i], status, now)
            != key_of(#[trigger] rest[j]) by {
            assert(rest[i] == rows[i + 1] && rest[j] == rows[j + 1]);
        }
        assert forall|i: int, j: int|
            0 <= i < rest.len() && 0 <= j < rest.len() && i != j implies new_key(
            #[trigger] rest[i],
            status,
            now,
        ) != new_key(#[trigger] rest[j], status, now) by {
            assert(rest[i] == rows[i + 1] && rest[j] == rows[j + 1]);
        }
        lemma_close_all(t1, rest, status, now);
        let t2 = close_all_effect(t, rows, status, now);
        assert(t2 == close_all_effect(t1, rest, status, now));
        // the first row's new place survives the later moves
        assert forall|j: int| 0 <= j < rest.len() implies nk0 != key_of(#[trigger] rest[j]) by {
            assert(rest[j] == rows[j + 1]);
            assert(new_key(rows[0], status, now) != key_of(rows[j + 1]));
        }
        assert forall|j: int| 0 <= j < rest.len() implies nk0 != new_key(#[trigger] rest[j], status, now) by {
            assert(rest[j] == rows[j + 1]);
            assert(new_key(rows[0], status, now) != new_key(rows[j + 1], status, now));
        }
        assert(t1.contains_key(nk0));
        assert(t2.contains_key(nk0) && t2[nk0] == m0);
        assert forall|i: int|
            0 <= i < rows.len() implies #[trigger] t2.contains_key(new_key(rows[i], status, now))
            && t2[new_key(rows[i], status, now)] == moved_row(rows[i], status, now) by {
            if i > 0 {
                assert(rows[i] == rest[i - 1]);
            }
        }
        assert forall|k: (Seq<char>, Seq<char>)| #[trigger]
            t2.contains_key(k) implies (exists|i: int|
                0 <= i < rows.len() && k == new_key(#[trigger] rows[i], status, now)) || (
            t.contains_key(k) && t2[k] == t[k] && forall|i: int|
                0 <= i < rows.len() ==> k != key_of(#[trigger] rows[i])) by {
            if exists|j: int| 0 <= j < rest.len() && k == new_key(#[trigger] rest[j], status, now) {
                let j = choose|j: int| 0 <= j < rest.len() && k == new_key(#[trigger] rest[j], status, now);
                assert(rest[j] == rows[j + 1]);
            } else if k == nk0 {
                assert(k == new_key(rows[0], status, now));
            } else {
                assert forall|i: int| 0 <= i < rows.len() implies k != key_of(#[trigger] rows[i]) by {
                    if i > 0 {
                        assert(rows[i] == rest[i - 1]);
                    }
                }
            }
        }
        assert forall|k: (Seq<char>, Seq<char>)|
            #![trigger t.contains_key(k)]
            t.contains_key(k) && (forall|i: int|
                0 <= i < rows.len() ==> k != key_of(#[trigger] rows[i])) && (forall|i: int|
                0 <= i < rows.len() ==> k != new_key(#[trigger] rows[i], status, now))
                implies t2.contains_key(k) && t2[k] == t[k] by {
            assert(k != key_of(rows[0]) && k != new_key(rows[0], status, now));
            assert(t1.contains_key(k) && t1[k] == t[k]);
            assert forall|j: int| 0 <= j < rest.len() implies k != key_of(#[trigger] rest[j]) by {
                assert(rest[j] == rows[j + 1]);
            }
            assert forall|j: int| 0 <= j < rest.len() implies k != new_key(#[trigger] rest[j], status, now) by {
                assert(rest[j] == rows[j + 1]);
            }
        }
    }
}

/// Closing every open row of a client, as the bulk close does, leaves the
/// client with no open row, and each of those rows under the key of the new
/// status. `rows` are the open rows that the collecting scan found: all of
/// them, each once.
pub proof fn close_all_leaves_none_open(
    t: Table,
    hash: Seq<char>,
    rows: Seq<RowView>,
    status: Seq<char>,
    now: Seq<char>,
)
    requires
        well_keyed(t),
        movable(t, rows, status, now),
        forall|k: (Seq<char>, Seq<char>)|
            #[trigger] t.contains_key(k) && is_open_row(t[k], hash) ==> exists|i: int|
                0 <= i < rows.len() && k == key_of(#[trigger] rows[i]),
    ensures
        ({
            let t2 = close_all_effect(t, rows, status, now);
            &&& !has_open_row(t2, hash)
            &&& forall|page: Seq<RowView>| open_page_ok(t2, hash, page) ==> page.len() == 0
            &&& forall|i: int|
                0 <= i < rows.len() ==> !t2.contains_key(key_of(#[trigger] rows[i]))
                    && t2.contains_key(new_key(rows[i], status, now))
                    && t2[new_key(rows[i], status, now)] == moved_row(rows[i], status, now)
        }),
{
    lemma_close_all(t, rows, status, now);
    let t2 = close_all_effect(t, rows, status, now);
    assert forall|k: (Seq<char>, Seq<char>)| #[trigger] t2.contains_key(k) implies !is_open_row(
        t2[k],
        hash,
    ) by {
        if exists|i: int| 0 <= i < rows.len() && k == new_key(#[trigger] rows[i], status, now) {
            let i = choose|i: int| 0 <= i < rows.len() && k == new_key(#[trigger] rows[i], status, now);
            lemma_moved_row_not_open(rows[i], status, now, hash);
        } else {
            if is_open_row(t[k], hash) {
                let i = choose|i: int| 0 <= i < rows.len() && k == key_of(#[trigger] rows[i]);
            }
        }
    }
    assert forall|i: int| 0 <= i < rows.len() implies !t2.contains_key(key_of(#[trigger] rows[i])) by {
        let k = key_of(rows[i]);
        if t2.contains_key(k) {
            if exists|j: int| 0 <= j < rows.len() && k == new_key(#[trigger] rows[j], status, now) {
                let j = choose|j: int| 0 <= j < rows.len() && k == new_key(#[trigger] rows[j], status, now);
                assert(new_key(rows[j], status, now) != key_of(rows[i]));
            }
        }
    }
}

} // verus!
