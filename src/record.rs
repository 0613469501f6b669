//! One stored session row, and the two ways a row comes to be: opened for a
//! new session, or moved to another status.

use vstd::prelude::*;
use crate::keys::{
    Client, client_hash, make_hash, moved_stage, open_stage, open_status,
    open_status_str, sort_key, sort_key_of, time_key, time_key_of,
};

verus! {

/// A session as it is stored: its fields and the key material derived from
/// them. `metadata` holds the encrypted payload.
pub struct Conversation {
    pub hash: String,
    pub range: String,
    pub range_time: String,
    pub id: String,
    pub client: Client,
    pub flow_id: String,
    pub step_id: String,
    pub metadata: String,
    pub status: String,
    pub created_at: String,
    pub updated_at: String,
    pub last_interaction_at: String,
}

/// The mathematical content of a stored row.
pub struct RowView {
    pub hash: Seq<char>,
    pub range: Seq<char>,
    pub range_time: Seq<char>,
    pub id: Seq<char>,
    pub bot_id: Seq<char>,
    pub channel_id: Seq<char>,
    pub user_id: Seq<char>,
    pub flow_id: Seq<char>,
    pub step_id: Seq<char>,
    pub metadata: Seq<char>,
    pub status: Seq<char>,
    pub created_at: Seq<char>,
    pub updated_at: Seq<char>,
    pub last_interaction_at: Seq<char>,
}

impl View for Conversation {
    type V = RowView;

    open spec fn view(&self) -> RowView {
        RowView {
            hash: self.hash@,
            range: self.range@,
            range_time: self.range_time@,
            id: self.id@,
            bot_id: self.client.bot_id@,
            channel_id: self.client.channel_id@,
            user_id: self.client.user_id@,
            flow_id: self.flow_id@,
            step_id: self.step_id@,
            metadata: self.metadata@,
            status: self.status@,
            created_at: self.created_at@,
            updated_at: self.updated_at@,
            last_interaction_at: self.last_interaction_at@,
        }
    }
}

/// The row of a session just opened at time `now`.
pub open spec fn opened_row(
    client: Client,
    id: Seq<char>,
    metadata: Seq<char>,
    flow_id: Seq<char>,
    step_id: Seq<char>,
    now: Seq<char>,
) -> RowView {
    RowView {
        hash: client_hash(client),
        range: sort_key_of(open_status(), id),
        range_time: time_key_of(open_stage(), open_status(), now, id),
        id,
        bot_id: client.bot_id@,
        channel_id: client.channel_id@,
        user_id: client.user_id@,
        flow_id,
        step_id,
        metadata,
        status: open_status(),
        created_at: now,
        updated_at: now,
        last_interaction_at: now,
    }
}

/// Row `r` moved to `status` at time `now`: same session, new keys and times.
pub open spec fn moved_row(r: RowView, status: Seq<char>, now: Seq<char>) -> RowView {
    RowView {
        range: sort_key_of(status, r.id),
        range_time: time_key_of(moved_stage(), status, now, r.id),
        status,
        updated_at: now,
        last_interaction_at: now,
        ..r
    }
}

/// Relies on chrono's `Utc::now` and `format`: the current UTC time as
/// `YYYY-MM-DDTHH:mm:ss.SSS[Z]`. Nothing is promised of its value.
#[verifier::external_body]
pub fn get_date_time() -> (r: String) {
    chrono::Utc::now().format("%Y-%m-%dT%H:%M:%S.%3f[Z]").to_string()
}

/// Relies on uuid's `Uuid::new_v4`: a fresh random identifier, in its
/// hyphenated text form. Nothing is promised of its value.
#[verifier::external_body]
fn new_conversation_id() -> (r: String) {
    uuid::Uuid::new_v4().to_string()
}

impl Conversation {
    /// The row of a new open session, stamped with `now`.
    pub fn new(
        client: &Client,
        id: &str,
        metadata: &str,
        flow_id: &str,
        step_id: &str,
        now: &str,
    ) -> (r: Conversation)
        ensures
            r@ == opened_row(*client, id@, metadata@, flow_id@, step_id@, now@),
    {
        let open = open_status_str();
        Conversation {
            hash: make_hash(client),
            range: sort_key(open, id),
            range_time: time_key("conversation", open, now, id),
            id: String::from_str(id),
            client: client.copy(),
            flow_id: String::from_str(flow_id),
            step_id: String::from_str(step_id),
            metadata: String::from_str(metadata),
            status: String::from_str(open),
            created_at: String::from_str(now),
            updated_at: String::from_str(now),
            last_interaction_at: String::from_str(now),
        }
    }

    /// This row moved to `status` at time `now`.
    pub fn moved(&self, status: &str, now: &str) -> (r: Conversation)
        ensures
            r@ == moved_row(self@, status@, now@),
    {
        Conversation {
            hash: self.hash.clone(),
            range: sort_key(status, self.id.as_str()),
            range_time: time_key("interaction", status, now, self.id.as_str()),
            id: self.id.clone(),
            client: self.client.copy(),
            flow_id: self.flow_id.clone(),
            step_id: self.step_id.clone(),
            metadata: self.metadata.clone(),
            status: String::from_str(status),
            created_at: self.created_at.clone(),
            updated_at: String::from_str(now),
            last_interaction_at: String::from_str(now),
        }
    }

    pub fn copy(&self) -> (r: Conversation)
        ensures
            r@ == self@,
    {
        Conversation {
            hash: self.hash.clone(),
            range: self.range.clone(),
            range_time: self.range_time.clone(),
            id: self.id.clone(),
            client: self.client.copy(),
            flow_id: self.flow_id.clone(),
            step_id: self.step_id.clone(),
            metadata: self.metadata.clone(),
            status: self.status.clone(),
            created_at: self.created_at.clone(),
            updated_at: self.updated_at.clone(),
            last_interaction_at: self.last_interaction_at.clone(),
        }
    }
}

/// The row of a new open session for `client`, with a fresh identifier and
/// the current time as its three timestamps.
pub fn open_conversation(
    client: &Client,
    flow_id: &str,
    step_id: &str,
    metadata: &str,
) -> (r: Conversation)
    ensures
        r@ == opened_row(*client, r@.id, metadata@, flow_id@, step_id@, r@.created_at),
{
    let id = new_conversation_id();
    let now = get_date_time();
    Conversation::new(client, id.as_str(), metadata, flow_id, step_id, now.as_str())
}

} // verus!
