//! The session store's decisions. Each operation is split into the request
//! it sends to the table and what it makes of the answer; sending is left to
//! the transport. The table itself is modelled as a map from
//! `(partition key, sort key)` to row, and each request has its meaning on
//! that map here.

use vstd::prelude::*;
use crate::keys::{
    Client, client_hash, is_prefix, make_hash, open_prefix, open_status, open_status_str,
    sort_key, sort_key_of, open_time_prefix,
};
use crate::record::{Conversation, RowView, get_date_time, moved_row};

verus! {

/// The table: each key holds at most one row.
pub type Table = Map<(Seq<char>, Seq<char>), RowView>;

pub open spec fn key_of(r: RowView) -> (Seq<char>, Seq<char>) {
    (r.hash, r.range)
}

/// Every row sits under its own key.
pub open spec fn well_keyed(t: Table) -> bool {
    forall|k: (Seq<char>, Seq<char>)| #[trigger] t.contains_key(k) ==> key_of(t[k]) == k
}

/// A row that the open-session query of partition `hash` selects.
pub open spec fn is_open_row(r: RowView, hash: Seq<char>) -> bool {
    r.hash == hash && is_prefix(open_prefix(), r.range_time)
}

pub open spec fn has_open_row(t: Table, hash: Seq<char>) -> bool {
    exists|k: (Seq<char>, Seq<char>)| #[trigger] t.contains_key(k) && is_open_row(t[k], hash)
}

/// What the table may answer to the open-session query with a limit of one:
/// nothing exactly when no open row exists, else one of the open rows.
pub open spec fn open_page_ok(t: Table, hash: Seq<char>, page: Seq<RowView>) -> bool {
    &&& page.len() <= 1
    &&& (page.len() == 0 <==> !has_open_row(t, hash))
    &&& page.len() == 1 ==> exists|k: (Seq<char>, Seq<char>)|
        #[trigger] t.contains_key(k) && t[k] == page[0] && is_open_row(page[0], hash)
}

pub open spec fn read(t: Table, k: (Seq<char>, Seq<char>)) -> Option<RowView> {
    if t.contains_key(k) {
        Some(t[k])
    } else {
        None
    }
}

/// An unconditional write of row `r`.
pub open spec fn put_row(t: Table, r: RowView) -> Table {
    t.insert(key_of(r), r)
}

/// The atomic replace: delete the row under `old` and put `new`, both or
/// neither. It is refused (`None`) when no row is under `old`.
pub open spec fn replaced(t: Table, old: (Seq<char>, Seq<char>), new: RowView) -> Option<Table> {
    if t.contains_key(old) {
        Some(t.remove(old).insert(key_of(new), new))
    } else {
        None
    }
}

/// The row under `k` with its last interaction set to `now` and the flow
/// and step set where given; refused (`None`) when no row is under `k`.
pub open spec fn updated(
    t: Table,
    k: (Seq<char>, Seq<char>),
    now: Seq<char>,
    flow_id: Option<Seq<char>>,
    step_id: Option<Seq<char>>,
) -> Option<Table> {
    if t.contains_key(k) {
        let r = t[k];
        Some(
            t.insert(
                k,
                RowView {
                    last_interaction_at: now,
                    flow_id: match flow_id {
                        Some(f) => f,
                        None => r.flow_id,
                    },
                    step_id: match step_id {
                        Some(s) => s,
                        None => r.step_id,
                    },
                    ..r
                },
            ),
        )
    } else {
        None
    }
}

/// The keys of the rows that hold session `id`.
pub open spec fn rows_with_id(t: Table, id: Seq<char>) -> Set<(Seq<char>, Seq<char>)> {
    Set::new(|k: (Seq<char>, Seq<char>)| t.contains_key(k) && t[k].id == id)
}

/// Closing the session whose open row is under `k`, at time `now`: the row
/// read there, if any, is moved by the atomic replace; a refused replace
/// leaves the table as it was.
pub open spec fn close_effect(
    t: Table,
    k: (Seq<char>, Seq<char>),
    status: Seq<char>,
    now: Seq<char>,
) -> Table {
    match read(t, k) {
        None => t,
        Some(r) => match replaced(t, key_of(r), moved_row(r, status, now)) {
            Some(t2) => t2,
            None => t,
        },
    }
}

/// Closing each of `rows` in turn at time `now`. Each move is atomic on its
/// own; a refused one (the row was moved meanwhile) changes nothing and the
/// rest go on.
pub open spec fn close_all_effect(
    t: Table,
    rows: Seq<RowView>,
    status: Seq<char>,
    now: Seq<char>,
) -> Table
    decreases rows.len(),
{
    if rows.len() == 0 {
        t
    } else {
        let r = rows[0];
        let t1 = match replaced(t, key_of(r), moved_row(r, status, now)) {
            Some(t1) => t1,
            None => t,
        };
        close_all_effect(t1, rows.drop_first(), status, now)
    }
}

pub open spec fn open_key_of(client: Client, id: Seq<char>) -> (Seq<char>, Seq<char>) {
    (client_hash(client), sort_key_of(open_status(), id))
}

/// The primary key of one row.
pub struct Key {
    pub hash: String,
    pub range: String,
}

impl View for Key {
    type V = (Seq<char>, Seq<char>);

    open spec fn view(&self) -> (Seq<char>, Seq<char>) {
        (self.hash@, self.range@)
    }
}

/// The key of the open row of session `id` of `client`.
pub fn open_key(client: &Client, id: &str) -> (r: Key)
    ensures
        r@ == open_key_of(*client, id@),
{
    Key { hash: make_hash(client), range: sort_key(open_status_str(), id) }
}

/// Moving one row: the key it leaves and the row put in its place.
pub struct Replacement {
    pub old_key: Key,
    pub new_row: Conversation,
}

/// The replacement that moves `row` to `status` at time `now`.
pub fn replacement_for(row: &Conversation, status: &str, now: &str) -> (r: Replacement)
    ensures
        r.old_key@ == key_of(row@),
        r.new_row@ == moved_row(row@, status@, now@),
{
    Replacement {
        old_key: Key { hash: row.hash.clone(), range: row.range.clone() },
        new_row: row.moved(status, now),
    }
}

/// What closing does with the open row read under the session's key: no
/// row means the session is closed already and nothing is written;
/// otherwise the row is moved to `status`, stamped with the current time.
pub fn plan_close(found: Option<Conversation>, status: &str) -> (r: Option<Replacement>)
    ensures
        found is None <==> r is None,
        r is Some ==> r->0.old_key@ == key_of(found->0@) && r->0.new_row@ == moved_row(
            found->0@,
            status@,
            r->0.new_row@.updated_at,
        ),
{
    match found {
        None => None,
        Some(row) => {
            let now = get_date_time();
            Some(replacement_for(&row, status, now.as_str()))
        },
    }
}

/// The replacements that move each of `rows` to `status` at time `now`, in
/// order.
pub fn close_all_replacements(rows: &Vec<Conversation>, status: &str, now: &str) -> (r: Vec<
    Replacement,
>)
    ensures
        r@.len() == rows@.len(),
        forall|i: int|
            0 <= i < rows@.len() ==> #[trigger] r@[i].old_key@ == key_of(rows@[i]@)
                && r@[i].new_row@ == moved_row(rows@[i]@, status@, now@),
{
    let mut out: Vec<Replacement> = Vec::new();
    let mut i: usize = 0;
    while i < rows.len()
        invariant
            i <= rows@.len(),
            out@.len() == i,
            forall|j: int|
                0 <= j < i ==> #[trigger] out@[j].old_key@ == key_of(rows@[j]@)
                    && out@[j].new_row@ == moved_row(rows@[j]@, status@, now@),
        decreases rows@.len() - i,
    {
        out.push(replacement_for(&rows[i], status, now));
        i = i + 1;
    }
    out
}

/// Closing every row of `rows`, all stamped with one reading of the clock.
pub fn plan_close_all(rows: &Vec<Conversation>, status: &str) -> (r: Vec<Replacement>)
    ensures
        r@.len() == rows@.len(),
        forall|i: int|
            0 <= i < rows@.len() ==> #[trigger] r@[i].old_key@ == key_of(rows@[i]@)
                && r@[i].new_row@ == moved_row(rows@[i]@, status@, r@[0].new_row@.updated_at),
{
    let now = get_date_time();
    let r = close_all_replacements(rows, status, now.as_str());
    proof {
        if rows@.len() > 0 {
            assert(r@[0].old_key@ == key_of(rows@[0]@));
        }
    }
    r
}

pub open spec fn opt_view(o: Option<String>) -> Option<Seq<char>> {
    match o {
        Some(s) => Some(s@),
        None => None,
    }
}

pub open spec fn pairs_view(v: Seq<(String, String)>) -> Seq<(Seq<char>, Seq<char>)> {
    v.map_values(|p: (String, String)| (p.0@, p.1@))
}

/// The update expression: the last interaction is always set, the flow and
/// the step only when given.
pub open spec fn update_expression_of(flow: bool, step: bool) -> Seq<char> {
    "SET last_interaction_at = :lastInteractionAtVal"@ + (if flow {
        ", flow_id = :flowIdVal"@
    } else {
        Seq::empty()
    }) + (if step {
        ", step_id = :stepIdVal"@
    } else {
        Seq::empty()
    })
}

pub open spec fn opt_pair(name: Seq<char>, v: Option<Seq<char>>) -> Seq<(Seq<char>, Seq<char>)> {
    match v {
        Some(x) => seq![(name, x)],
        None => Seq::empty(),
    }
}

/// The placeholder values of the update: the key the condition checks,
/// then the values the expression sets.
pub open spec fn update_values_of(
    key: (Seq<char>, Seq<char>),
    now: Seq<char>,
    flow_id: Option<Seq<char>>,
    step_id: Option<Seq<char>>,
) -> Seq<(Seq<char>, Seq<char>)> {
    seq![(":hashVal"@, key.0), (":rangeVal"@, key.1), (":lastInteractionAtVal"@, now)]
        + opt_pair(":flowIdVal"@, flow_id) + opt_pair(":stepIdVal"@, step_id)
}

/// A conditional update of one open row: it applies only where a row with
/// exactly `key` exists, so it never creates one.
pub struct UpdateRequest {
    pub key: Key,
    /// The condition, over the placeholders of `names` and `values`.
    pub condition: String,
    pub names: Vec<(String, String)>,
    pub expression: String,
    pub values: Vec<(String, String)>,
    pub last_interaction_at: String,
    pub flow_id: Option<String>,
    pub step_id: Option<String>,
}

pub open spec fn update_condition() -> Seq<char> {
    "#hashKey = :hashVal AND #rangeKey = :rangeVal"@
}

pub open spec fn update_names() -> Seq<(Seq<char>, Seq<char>)> {
    seq![("#hashKey"@, "hash"@), ("#rangeKey"@, "range"@)]
}

/// The meaning of an update request on the table.
pub open spec fn update_applied(t: Table, u: UpdateRequest) -> Option<Table> {
    updated(t, u.key@, u.last_interaction_at@, opt_view(u.flow_id), opt_view(u.step_id))
}

fn push_pair(v: &mut Vec<(String, String)>, name: &str, value: &str)
    ensures
        pairs_view(final(v)@) == pairs_view(old(v)@).push((name@, value@)),
{
    v.push((String::from_str(name), String::from_str(value)));
    assert(pairs_view(final(v)@) =~= pairs_view(old(v)@).push((name@, value@)));
}

/// The update of session `id` of `client` at time `now`, setting the flow
/// and the step where given.
pub fn update_request(
    id: &str,
    client: &Client,
    flow_id: Option<String>,
    step_id: Option<String>,
    now: &str,
) -> (r: UpdateRequest)
    ensures
        r.key@ == open_key_of(*client, id@),
        r.last_interaction_at@ == now@,
        opt_view(r.flow_id) == opt_view(flow_id),
        opt_view(r.step_id) == opt_view(step_id),
        r.condition@ == update_condition(),
        pairs_view(r.names@) == update_names(),
        r.expression@ == update_expression_of(flow_id is Some, step_id is Some),
        pairs_view(r.values@) == update_values_of(
            open_key_of(*client, id@),
            now@,
            opt_view(flow_id),
            opt_view(step_id),
        ),
{
    let key = open_key(client, id);
    let mut names: Vec<(String, String)> = Vec::new();
    push_pair(&mut names, "#hashKey", "hash");
    push_pair(&mut names, "#rangeKey", "range");
    assert(pairs_view(names@) =~= update_names());
    let mut values: Vec<(String, String)> = Vec::new();
    push_pair(&mut values, ":hashVal", key.hash.as_str());
    push_pair(&mut values, ":rangeVal", key.range.as_str());
    push_pair(&mut values, ":lastInteractionAtVal", now);
    let ghost base = pairs_view(values@);
    let mut expression = String::from_str("SET last_interaction_at = :lastInteractionAtVal");
    let ghost e0 = expression@;
    match &flow_id {
        Some(f) => {
            expression.append(", flow_id = :flowIdVal");
            push_pair(&mut values, ":flowIdVal", f.as_str());
        },
        None => {},
    }
    let ghost e1 = expression@;
    let ghost v1 = pairs_view(values@);
    assert(e1 =~= e0 + (if flow_id is Some { ", flow_id = :flowIdVal"@ } else { Seq::empty() }));
    assert(v1 =~= base + opt_pair(":flowIdVal"@, opt_view(flow_id)));
    match &step_id {
        Some(st) => {
            expression.append(", step_id = :stepIdVal");
            push_pair(&mut values, ":stepIdVal", st.as_str());
        },
        None => {},
    }
    assert(expression@ =~= e1 + (if step_id is Some { ", step_id = :stepIdVal"@ } else { Seq::empty() }));
    assert(pairs_view(values@) =~= v1 + opt_pair(":stepIdVal"@, opt_view(step_id)));
    assert(pairs_view(values@) =~= update_values_of(
        open_key_of(*client, id@),
        now@,
        opt_view(flow_id),
        opt_view(step_id),
    ));
    UpdateRequest {
        key,
        condition: String::from_str("#hashKey = :hashVal AND #rangeKey = :rangeVal"),
        names,
        expression,
        values,
        last_interaction_at: String::from_str(now),
        flow_id,
        step_id,
    }
}

/// The update of session `id` of `client`, stamped with the current time.
pub fn plan_update(
    id: &str,
    client: &Client,
    flow_id: Option<String>,
    step_id: Option<String>,
) -> (r: UpdateRequest)
    ensures
        r.key@ == open_key_of(*client, id@),
        opt_view(r.flow_id) == opt_view(flow_id),
        opt_view(r.step_id) == opt_view(step_id),
        r.condition@ == update_condition(),
        pairs_view(r.names@) == update_names(),
        r.expression@ == update_expression_of(flow_id is Some, step_id is Some),
        pairs_view(r.values@) == update_values_of(
            open_key_of(*client, id@),
            r.last_interaction_at@,
            opt_view(flow_id),
            opt_view(step_id),
        ),
{
    let now = get_date_time();
    update_request(id, client, flow_id, step_id, now.as_str())
}

/// The query for open sessions of one client on the time-ordered index:
/// rows of partition `hash` whose time key starts with `prefix`, at most one,
/// taken after the row `after` where one is given.
pub struct OpenQuery {
    pub hash: String,
    pub prefix: String,
    pub after: Option<Conversation>,
}

/// The query for the open session of `client`.
pub fn open_query(client: &Client) -> (r: OpenQuery)
    ensures
        r.hash@ == client_hash(*client),
        r.prefix@ == open_prefix(),
        r.after is None,
{
    OpenQuery { hash: make_hash(client), prefix: open_time_prefix(), after: None }
}

/// The session a page of the open query yields: its first row, if any.
pub fn latest_open(page: Vec<Conversation>) -> (r: Option<Conversation>)
    ensures
        r is None <==> page@.len() == 0,
        r is Some ==> r->0@ == page@[0]@,
{
    if page.len() == 0 {
        None
    } else {
        Some(page[0].copy())
    }
}

pub open spec fn ids_of(rows: Seq<Conversation>) -> Seq<Seq<char>> {
    rows.map_values(|c: Conversation| c.id@)
}

/// The next query while collecting every open session of `client`: it
/// resumes after the last row collected so far.
pub fn next_open_query(client: &Client, found: &Vec<Conversation>) -> (r: OpenQuery)
    ensures
        r.hash@ == client_hash(*client),
        r.prefix@ == open_prefix(),
        found@.len() == 0 ==> r.after is None,
        found@.len() > 0 ==> r.after is Some && r.after->0@ == found@.last()@,
{
    let mut q = open_query(client);
    if found.len() > 0 {
        q.after = Some(found[found.len() - 1].copy());
    }
    q
}

/// Takes in one page of the collecting scan. Its row is kept when it is a
/// session not collected yet, and the scan goes on (`true`); an empty page,
/// or a session seen already, ends it with `found` unchanged.
pub fn scan_step(found: &mut Vec<Conversation>, page: Vec<Conversation>) -> (more: bool)
    ensures
        more <==> page@.len() > 0 && !ids_of(old(found)@).contains(page@[0].id@),
        more ==> final(found)@.len() == old(found)@.len() + 1
            && final(found)@.drop_last() == old(found)@
            && final(found)@.last()@ == page@[0]@,
        !more ==> final(found)@ == old(found)@,
{
    if page.len() == 0 {
        return false;
    }
    let mut i: usize = 0;
    while i < found.len()
        invariant
            i <= found@.len(),
            page@.len() > 0,
            forall|j: int| 0 <= j < i ==> found@[j].id@ != page@[0].id@,
        decreases found@.len() - i,
    {
        if found[i].id == page[0].id {
            assert(ids_of(found@)[i as int] == page@[0].id@);
            return false;
        }
        i = i + 1;
    }
    assert(!ids_of(found@).contains(page@[0].id@));
    let ghost before = found@;
    found.push(page[0].copy());
    assert(found@.drop_last() =~= before);
    true
}

} // verus!
