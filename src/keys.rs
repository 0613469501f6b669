//! Derivation of partition, sort and time-ordering keys.
//!
//! Keys are segments joined by `#`. A session row lives under
//! `(hash, range)` where `hash` names the client and `range` is
//! `conversation#<status>#<id>`. The secondary index orders rows by
//! `range_time`, which is `<stage>#<status>#<timestamp>#<id>`: the stage is
//! `conversation` while the row is still in the state it was created in
//! (open), and `interaction` once it has been moved to another status.
//! Open rows are therefore found by the prefix `conversation#OPEN#`, with no
//! timestamp needed, while moved rows sort by the time of their last move.

use vstd::prelude::*;

verus! {

/// The identity of one conversational participant.
pub struct Client {
    pub bot_id: String,
    pub channel_id: String,
    pub user_id: String,
}

impl Client {
    pub fn new(bot_id: &str, channel_id: &str, user_id: &str) -> (r: Client)
        ensures
            r.bot_id@ == bot_id@,
            r.channel_id@ == channel_id@,
            r.user_id@ == user_id@,
    {
        Client {
            bot_id: String::from_str(bot_id),
            channel_id: String::from_str(channel_id),
            user_id: String::from_str(user_id),
        }
    }

    pub fn copy(&self) -> (r: Client)
        ensures
            r.bot_id@ == self.bot_id@,
            r.channel_id@ == self.channel_id@,
            r.user_id@ == self.user_id@,
    {
        Client {
            bot_id: self.bot_id.clone(),
            channel_id: self.channel_id.clone(),
            user_id: self.user_id.clone(),
        }
    }
}

/// The partition key of a client identity.
pub open spec fn hash_of(bot: Seq<char>, channel: Seq<char>, user: Seq<char>) -> Seq<char> {
    "bot_id:"@ + bot + "#channel_id:"@ + channel + "#user_id:"@ + user
}

pub open spec fn client_hash(c: Client) -> Seq<char> {
    hash_of(c.bot_id@, c.channel_id@, c.user_id@)
}

/// Segments joined left to right; a `#` goes before a segment only when
/// what has been joined so far is not empty.
pub open spec fn range_of(parts: Seq<Seq<char>>) -> Seq<char>
    decreases parts.len(),
{
    if parts.len() == 0 {
        Seq::empty()
    } else {
        let acc = range_of(parts.drop_last());
        let sep = if acc.len() > 0 { acc.push('#') } else { acc };
        sep + parts.last()
    }
}

pub open spec fn views_of(args: Seq<&str>) -> Seq<Seq<char>> {
    args.map_values(|a: &str| a@)
}

/// Builds the partition key of a client.
pub fn make_hash(client: &Client) -> (r: String)
    ensures
        r@ == client_hash(*client),
{
    let mut r = String::from_str("bot_id:");
    r.append(client.bot_id.as_str());
    r.append("#channel_id:");
    r.append(client.channel_id.as_str());
    r.append("#user_id:");
    r.append(client.user_id.as_str());
    r
}

/// Joins the segments of a composite key.
pub fn make_range(args: &[&str]) -> (r: String)
    ensures
        r@ == range_of(views_of(args@)),
{
    let mut res = String::new();
    let mut i: usize = 0;
    while i < args.len()
        invariant
            i <= args@.len(),
            res@ == range_of(views_of(args@.subrange(0, i as int))),
        decreases args@.len() - i,
    {
        proof {
            let s = views_of(args@.subrange(0, i as int + 1));
            assert(s.drop_last() =~= views_of(args@.subrange(0, i as int)));
            assert(s.last() == args@[i as int]@);
        }
        let ghost before = res@;
        if !res.as_str().is_empty() {
            res.append("#");
            proof {
                reveal_strlit("#");
                assert(res@ =~= before.push('#'));
            }
        }
        res.append(args[i]);
        i = i + 1;
        proof {
            let s = views_of(args@.subrange(0, i as int));
            assert(s.drop_last() =~= views_of(args@.subrange(0, i - 1)));
            assert(res@ =~= range_of(s));
        }
    }
    assert(args@.subrange(0, args@.len() as int) =~= args@);
    res
}

/// The status every session is created with.
pub open spec fn open_status() -> Seq<char> {
    "OPEN"@
}

/// Stage of a row that still holds the status it was created with.
pub open spec fn open_stage() -> Seq<char> {
    "conversation"@
}

/// Stage of a row that has been moved to another status.
pub open spec fn moved_stage() -> Seq<char> {
    "interaction"@
}

pub open spec fn sort_key_of(status: Seq<char>, id: Seq<char>) -> Seq<char> {
    range_of(seq!["conversation"@, status, id])
}

pub open spec fn time_key_of(
    stage: Seq<char>,
    status: Seq<char>,
    timestamp: Seq<char>,
    id: Seq<char>,
) -> Seq<char> {
    range_of(seq![stage, status, timestamp, id])
}

/// What the time key of every open row starts with.
pub open spec fn open_prefix() -> Seq<char> {
    range_of(seq![open_stage(), open_status(), Seq::empty()])
}

pub open spec fn is_prefix(p: Seq<char>, s: Seq<char>) -> bool {
    p.len() <= s.len() && s.subrange(0, p.len() as int) == p
}

pub fn open_status_str() -> (r: &'static str)
    ensures
        r@ == open_status(),
{
    "OPEN"
}

/// The primary sort key of the row of session `id` in `status`.
pub fn sort_key(status: &str, id: &str) -> (r: String)
    ensures
        r@ == sort_key_of(status@, id@),
{
    let parts: [&str; 3] = ["conversation", status, id];
    let r = make_range(&parts);
    assert(views_of(parts@) =~= seq!["conversation"@, status@, id@]);
    r
}

/// The key of a row in the time-ordered index.
pub fn time_key(stage: &str, status: &str, timestamp: &str, id: &str) -> (r: String)
    ensures
        r@ == time_key_of(stage@, status@, timestamp@, id@),
{
    let parts: [&str; 4] = [stage, status, timestamp, id];
    let r = make_range(&parts);
    assert(views_of(parts@) =~= seq![stage@, status@, timestamp@, id@]);
    r
}

/// The prefix that selects the open rows in the time-ordered index.
pub fn open_time_prefix() -> (r: String)
    ensures
        r@ == open_prefix(),
{
    let parts: [&str; 3] = ["conversation", "OPEN", ""];
    let r = make_range(&parts);
    proof {
        reveal_strlit("");
        assert(parts@[2]@ =~= Seq::<char>::empty());
    }
    assert(views_of(parts@) =~= seq![open_stage(), open_status(), Seq::<char>::empty()]);
    r
}

} // verus!
