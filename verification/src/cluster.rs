//! The cluster table: every known node, keyed by its id, with the record
//! that the node file stores for it. Holds the table's operations and the
//! decisions that the synchronisation and heartbeat tasks make on it.
use vstd::prelude::*;
use vstd::string::*;

pub mod edit;

use crate::outside::{
    json_reply_field, json_reply_field_i64, json_reply_field_text, json_reply_number, now_timestamp,
    random_in_range,
};
use crate::state::GlobalState;
use crate::utils::{md5, md5_hex};
use crate::cluster::edit::with_role;

verus! {

/// What a node's record holds, as plain values.
pub struct NodeRecordView {
    pub address: Seq<char>,
    pub state: Seq<char>,
    pub role: Seq<char>,
    pub version: Seq<char>,
    pub term: i64,
    pub nv: i64,
    pub others: Seq<(Seq<char>, Seq<char>)>,
}

/// The text of each name and value of a record's other fields.
pub open spec fn fields_view(f: Seq<(String, String)>) -> Seq<(Seq<char>, Seq<char>)> {
    f.map_values(|p: (String, String)| (p.0@, p.1@))
}

/// One member of the cluster: where it listens, its state (`on`, `off` or
/// `del`), its role (`follower`, `candidate` or `leader`), the program version,
/// its term, and `nv`, the version number of the record itself, which every
/// edit raises by one and which decides which copy wins a synchronisation.
/// `others` holds any further fields the record came with, each as its name
/// and its value's compact JSON text; they are kept as they are.
pub struct NodeRecord {
    pub address: String,
    pub state: String,
    pub role: String,
    pub version: String,
    pub term: i64,
    pub nv: i64,
    pub others: Vec<(String, String)>,
}

impl View for NodeRecord {
    type V = NodeRecordView;

    open spec fn view(&self) -> NodeRecordView {
        NodeRecordView {
            address: self.address@,
            state: self.state@,
            role: self.role@,
            version: self.version@,
            term: self.term,
            nv: self.nv,
            others: fields_view(self.others@),
        }
    }
}

/// A copy of a record's other fields.
fn copy_fields(f: &Vec<(String, String)>) -> (r: Vec<(String, String)>)
    ensures
        fields_view(r@) == fields_view(f@),
{
    let mut r: Vec<(String, String)> = Vec::new();
    let n = f.len();
    let mut i: usize = 0;
    while i < n
        invariant
            n == f@.len(),
            i <= n,
            fields_view(r@) =~= fields_view(f@).take(i as int),
        decreases n - i,
    {
        let name = f[i].0.clone();
        let value = f[i].1.clone();
        assert(fields_view(f@)[i as int] == (name@, value@));
        let ghost before = r@;
        let ghost item = (name@, value@);
        r.push((name, value));
        assert(fields_view(r@) =~= fields_view(before).push(item));
        assert(fields_view(r@) =~= fields_view(f@).take(i as int + 1));
        i = i + 1;
    }
    assert(fields_view(f@).take(n as int) =~= fields_view(f@));
    r
}

impl NodeRecord {
    /// A field-by-field copy.
    pub fn duplicate(&self) -> (r: NodeRecord)
        ensures
            r@ == self@,
    {
        NodeRecord {
            address: self.address.clone(),
            state: self.state.clone(),
            role: self.role.clone(),
            version: self.version.clone(),
            term: self.term,
            nv: self.nv,
            others: copy_fields(&self.others),
        }
    }
}

/// The cluster as a finite map from node id to record.
pub type ClusterView = Map<Seq<char>, NodeRecordView>;

pub open spec fn entry_view(e: (String, NodeRecord)) -> (Seq<char>, NodeRecordView) {
    (e.0@, e.1@)
}

pub open spec fn entries_view(s: Seq<(String, NodeRecord)>) -> Seq<(Seq<char>, NodeRecordView)> {
    s.map_values(|e: (String, NodeRecord)| entry_view(e))
}

/// No id occurs twice.
pub open spec fn distinct_ids(s: Seq<(Seq<char>, NodeRecordView)>) -> bool {
    forall|i: int, j: int| 0 <= i < j < s.len() ==> #[trigger] s[i].0 != #[trigger] s[j].0
}

/// The map that a list of `(id, record)` entries denotes.
pub open spec fn table_of(s: Seq<(Seq<char>, NodeRecordView)>) -> ClusterView
    decreases s.len(),
{
    if s.len() == 0 {
        Map::empty()
    } else {
        table_of(s.drop_last()).insert(s.last().0, s.last().1)
    }
}

pub proof fn lemma_table_of(s: Seq<(Seq<char>, NodeRecordView)>)
    requires
        distinct_ids(s),
    ensures
        table_of(s).dom().finite(),
        table_of(s).len() == s.len(),
        forall|i: int|
            0 <= i < s.len() ==> #[trigger] table_of(s).contains_key(s[i].0) && table_of(s)[s[i].0]
                == s[i].1,
        forall|k: Seq<char>|
            #[trigger] table_of(s).contains_key(k) ==> exists|i: int| 0 <= i < s.len() && s[i].0 == k,
    decreases s.len(),
{
    if s.len() > 0 {
        let t = s.drop_last();
        assert(distinct_ids(t));
        lemma_table_of(t);
        let last = s.last();
        if table_of(t).contains_key(last.0) {
            let i = choose|i: int| 0 <= i < t.len() && t[i].0 == last.0;
            assert(s[i].0 == s[s.len() - 1].0);
        }
        assert forall|i: int| 0 <= i < s.len() implies #[trigger] table_of(s).contains_key(s[i].0)
            && table_of(s)[s[i].0] == s[i].1 by {
            if i < s.len() - 1 {
                assert(t[i] == s[i]);
                assert(s[i].0 != s[s.len() - 1].0);
            }
        }
        assert forall|k: Seq<char>| #[trigger] table_of(s).contains_key(k) implies exists|i: int|
            0 <= i < s.len() && s[i].0 == k by {
            if k == last.0 {
                assert(s[s.len() - 1].0 == k);
            } else {
                let i = choose|i: int| 0 <= i < t.len() && t[i].0 == k;
                assert(s[i] == t[i]);
            }
        }
    }
}

/// Replacing the record of an entry replaces it in the map.
proof fn lemma_table_of_update(s: Seq<(Seq<char>, NodeRecordView)>, i: int, v: NodeRecordView)
    requires
        distinct_ids(s),
        0 <= i < s.len(),
    ensures
        distinct_ids(s.update(i, (s[i].0, v))),
        table_of(s.update(i, (s[i].0, v))) == table_of(s).insert(s[i].0, v),
{
    let u = s.update(i, (s[i].0, v));
    assert(distinct_ids(u)) by {
        assert forall|a: int, b: int| 0 <= a < b < u.len() implies #[trigger] u[a].0 != #[trigger] u[b].0 by {
            assert(u[a].0 == s[a].0);
            assert(u[b].0 == s[b].0);
        }
    }
    lemma_table_of(s);
    lemma_table_of(u);
    let lhs = table_of(u);
    let rhs = table_of(s).insert(s[i].0, v);
    assert forall|k: Seq<char>| lhs.contains_key(k) <==> rhs.contains_key(k) by {
        if lhs.contains_key(k) {
            let j = choose|j: int| 0 <= j < u.len() && u[j].0 == k;
            assert(s[j].0 == k);
        }
        if table_of(s).contains_key(k) {
            let j = choose|j: int| 0 <= j < s.len() && s[j].0 == k;
            assert(u[j].0 == k);
        }
        if k == s[i].0 {
            assert(u[i].0 == k);
        }
    }
    assert forall|k: Seq<char>| #[trigger] lhs.contains_key(k) implies lhs[k] == rhs[k] by {
        let j = choose|j: int| 0 <= j < u.len() && u[j].0 == k;
        if j == i {
            assert(u[j].1 == v);
        } else {
            assert(u[j] == s[j]);
            assert(s[j].0 != s[i].0);
        }
    }
    assert(lhs =~= rhs);
}

/// The cluster table, kept as a list of entries in the order the ids were
/// first added; no id occurs twice.
pub struct Cluster {
    entries: Vec<(String, NodeRecord)>,
}

impl Cluster {
    pub closed spec fn entry_seq(&self) -> Seq<(Seq<char>, NodeRecordView)> {
        entries_view(self.entries@)
    }

    #[verifier::type_invariant]
    spec fn ids_are_distinct(&self) -> bool {
        distinct_ids(self.entry_seq())
    }
}

impl View for Cluster {
    type V = ClusterView;

    closed spec fn view(&self) -> ClusterView {
        table_of(self.entry_seq())
    }
}

impl Cluster {
    /// A table with no node.
    pub fn new() -> (r: Cluster)
        ensures
            r@ == Map::<Seq<char>, NodeRecordView>::empty(),
    {
        let r = Cluster { entries: Vec::new() };
        assert(r.entry_seq() =~= Seq::empty());
        r
    }

    /// The number of nodes.
    pub fn len(&self) -> (r: usize)
        ensures
            r == self@.len(),
            self@.dom().finite(),
    {
        proof {
            use_type_invariant(self);
            lemma_table_of(self.entry_seq());
        }
        self.entries.len()
    }

    fn position(&self, id: &String) -> (r: Option<usize>)
        ensures
            match r {
                Some(i) => i < self.entries@.len() && self.entry_seq()[i as int].0 == id@,
                None => !self@.contains_key(id@),
            },
    {
        proof {
            use_type_invariant(self);
            lemma_table_of(self.entry_seq());
        }
        let n = self.entries.len();
        let mut i: usize = 0;
        while i < n
            invariant
                n == self.entries@.len(),
                i <= n,
                forall|j: int| 0 <= j < i ==> self.entry_seq()[j].0 != id@,
            decreases n - i,
        {
            if self.entries[i].0 == *id {
                return Some(i);
            }
            i = i + 1;
        }
        proof {
            if self@.contains_key(id@) {
                let j = choose|j: int| 0 <= j < self.entry_seq().len() && self.entry_seq()[j].0 == id@;
                assert(self.entry_seq()[j].0 != id@);
            }
        }
        None
    }

    /// The record of node `id`, if the table has one.
    pub fn get(&self, id: &String) -> (r: Option<&NodeRecord>)
        ensures
            match r {
                Some(rec) => self@.contains_key(id@) && self@[id@] == rec@,
                None => !self@.contains_key(id@),
            },
    {
        proof {
            use_type_invariant(self);
            lemma_table_of(self.entry_seq());
        }
        match self.position(id) {
            Some(i) => {
                assert(self.entry_seq()[i as int] == entry_view(self.entries@[i as int]));
                Some(&self.entries[i].1)
            },
            None => None,
        }
    }

    /// Whether node `id` is in the table.
    pub fn contains(&self, id: &String) -> (r: bool)
        ensures
            r == self@.contains_key(id@),
    {
        match self.get(id) {
            Some(_) => true,
            None => false,
        }
    }

    /// Sets the record of node `id`, adding the node where it is new.
    pub fn insert(&mut self, id: String, rec: NodeRecord)
        ensures
            final(self)@ == old(self)@.insert(id@, rec@),
    {
        proof {
            use_type_invariant(&*self);
            lemma_table_of(self.entry_seq());
        }
        let ghost old_seq = self.entry_seq();
        let pos = self.position(&id);
        let mut entries: Vec<(String, NodeRecord)> = Vec::new();
        std::mem::swap(&mut entries, &mut self.entries);
        assert(entries_view(entries@) == old_seq);
        let ghost new_entry = entry_view((id, rec));
        match pos {
            Some(i) => {
                entries.set(i, (id, rec));
                proof {
                    lemma_table_of_update(old_seq, i as int, rec@);
                    assert(entries_view(entries@) =~= old_seq.update(i as int, (old_seq[i as int].0, rec@)));
                }
            },
            None => {
                entries.push((id, rec));
                proof {
                    let s = entries_view(entries@);
                    assert(s =~= old_seq.push(new_entry));
                    assert(s.drop_last() =~= old_seq);
                    assert forall|a: int, b: int| 0 <= a < b < s.len() implies #[trigger] s[a].0
                        != #[trigger] s[b].0 by {
                        if b == s.len() - 1 {
                            assert(old_seq[a].0 == s[a].0);
                            assert(table_of(old_seq).contains_key(old_seq[a].0));
                        } else {
                            assert(old_seq[a] == s[a]);
                            assert(old_seq[b] == s[b]);
                        }
                    }
                }
            },
        }
        self.entries = entries;
    }

    /// The entries in table order, for writing the table out.
    pub fn entries(&self) -> (r: &Vec<(String, NodeRecord)>)
        ensures
            distinct_ids(entries_view(r@)),
            table_of(entries_view(r@)) == self@,
    {
        proof {
            use_type_invariant(self);
        }
        &self.entries
    }
}

/// Reading a node back after setting its record gives that record, and
/// setting one node's record leaves every other node's record as it was.
pub proof fn law_read_after_write(c: ClusterView, id: Seq<char>, rec: NodeRecordView, other: Seq<char>)
    ensures
        c.insert(id, rec).contains_key(id),
        c.insert(id, rec)[id] == rec,
        other != id ==> c.insert(id, rec).contains_key(other) == c.contains_key(other),
        other != id && c.contains_key(other) ==> c.insert(id, rec)[other] == c[other],
{
}

/// This node's view of the leader: how long it waits for a heartbeat (in
/// milliseconds, drawn from 300..700 when the node starts) and the Unix time
/// of the last heartbeat it received.
pub struct Node {
    wait_for_leader: i64,
    last_leader_beat: i64,
}

impl Node {
    #[verifier::type_invariant]
    spec fn wait_is_in_range(&self) -> bool {
        300 <= self.wait_for_leader < 700
    }

    pub closed spec fn wait(&self) -> i64 {
        self.wait_for_leader
    }

    pub closed spec fn last_beat(&self) -> i64 {
        self.last_leader_beat
    }

    /// A node with a random wait in 300..700 and the current time as its last
    /// heartbeat.
    pub fn new() -> (r: Node)
        ensures
            300 <= r.wait() < 700,
    {
        let wait = random_in_range(300, 700);
        let now = now_timestamp();
        Node::new_at(wait, now)
    }

    /// A node that waits `wait` milliseconds for the leader and last heard it
    /// at Unix time `now`.
    pub fn new_at(wait: i64, now: i64) -> (r: Node)
        requires
            300 <= wait < 700,
        ensures
            r.wait() == wait,
            r.last_beat() == now,
    {
        Node { wait_for_leader: wait, last_leader_beat: now }
    }

    /// The wait for the leader, in milliseconds.
    pub fn wait_for_leader(&self) -> (r: i64)
        ensures
            r == self.wait(),
            300 <= r < 700,
    {
        proof {
            use_type_invariant(self);
        }
        self.wait_for_leader
    }

    /// The Unix time of the last heartbeat.
    pub fn last_leader_beat(&self) -> (r: i64)
        ensures
            r == self.last_beat(),
    {
        self.last_leader_beat
    }

    /// Records a heartbeat from the leader at the current time, read from the
    /// clock, and returns that time: the last beat becomes it, so the beat is
    /// not overdue then.
    pub fn leader_beat(&mut self) -> (now: i64)
        ensures
            final(self).last_beat() == now,
            final(self).wait() == old(self).wait(),
            !beat_overdue(now, final(self).last_beat(), final(self).wait()),
    {
        let now = now_timestamp();
        self.leader_beat_at(now);
        proof {
            use_type_invariant(&*self);
            lemma_fresh_beat_not_overdue(now, self.wait());
        }
        now
    }

    /// Records a heartbeat from the leader at Unix time `now`.
    pub fn leader_beat_at(&mut self, now: i64)
        ensures
            final(self).last_beat() == now,
            final(self).wait() == old(self).wait(),
    {
        proof {
            use_type_invariant(&*self);
        }
        self.last_leader_beat = now;
    }
}

/// Whether the heartbeat is overdue at time `now`: the last beat plus the wait
/// (the wait counted in whole seconds) lies before `now`.
pub open spec fn beat_overdue(now: i64, last_beat: i64, wait: i64) -> bool {
    now > last_beat + wait / 1000
}

/// A beat is never overdue at the time it was received, whatever the wait.
pub proof fn lemma_fresh_beat_not_overdue(t: i64, wait: i64)
    requires
        wait >= 0,
    ensures
        !beat_overdue(t, t, wait),
{
}

/// Right after a heartbeat the listener's look finds the leader alive and
/// starts the count of misses again, whatever the count was.
pub proof fn law_look_after_beat_is_alive(timeout_count: u32, t: i64, wait: i64)
    requires
        wait >= 0,
    ensures
        beat_tick_spec(timeout_count, beat_overdue(t, t, wait)) == BeatCheck::Alive,
{
}

/// What one look at the leader's heartbeat finds.
#[derive(PartialEq, Eq, Structural)]
pub enum BeatCheck {
    /// The beat is not overdue; the count of misses starts again from zero.
    Alive,
    /// The beat is overdue for the given number of consecutive looks.
    Missed(u32),
    /// The count of overdue looks reached three: the leader is taken as lost.
    Lost,
}

/// What one look finds, given the count of overdue looks before it and
/// whether the beat is overdue now.
pub open spec fn beat_tick_spec(timeout_count: u32, overdue: bool) -> BeatCheck {
    if !overdue {
        BeatCheck::Alive
    } else if timeout_count + 1 == 3 {
        BeatCheck::Lost
    } else {
        BeatCheck::Missed((timeout_count + 1) as u32)
    }
}

/// The position of the look at which the listener takes the leader as lost,
/// when it starts with `timeout_count` overdue looks behind it and the looks
/// find the beat overdue as `overdue` says; `None` if no look does.
pub open spec fn lost_poll(timeout_count: u32, overdue: Seq<bool>) -> Option<int>
    decreases overdue.len(),
{
    if overdue.len() == 0 || timeout_count == u32::MAX {
        None
    } else {
        match beat_tick_spec(timeout_count, overdue[0]) {
            BeatCheck::Lost => Some(0),
            BeatCheck::Missed(c) => match lost_poll(c, overdue.drop_first()) {
                Some(i) => Some(i + 1),
                None => None,
            },
            BeatCheck::Alive => match lost_poll(0, overdue.drop_first()) {
                Some(i) => Some(i + 1),
                None => None,
            },
        }
    }
}

/// Whether look `i` is the third overdue look in a row, counting `before`
/// overdue looks ahead of the first one.
pub open spec fn ends_third_miss(before: nat, overdue: Seq<bool>, i: int) -> bool {
    &&& 0 <= i < overdue.len()
    &&& overdue[i]
    &&& i >= 1 ==> overdue[i - 1]
    &&& i >= 2 ==> overdue[i - 2]
    &&& i + before >= 2
}

proof fn lemma_shift(c: nat, c1: nat, s: Seq<bool>)
    requires
        s.len() > 0,
        (!s[0] && c1 == 0) || (s[0] && c < 2 && c1 == c + 1),
    ensures
        !ends_third_miss(c, s, 0),
        forall|i: int|
            1 <= i < s.len() ==> #[trigger] ends_third_miss(c, s, i) == ends_third_miss(
                c1,
                s.drop_first(),
                i - 1,
            ),
{
    let t = s.drop_first();
    assert forall|i: int| 1 <= i < s.len() implies #[trigger] ends_third_miss(c, s, i)
        == ends_third_miss(c1, t, i - 1) by {
        assert(t[i - 1] == s[i]);
        if i >= 2 {
            assert(t[i - 2] == s[i - 1]);
        }
        if i >= 3 {
            assert(t[i - 3] == s[i - 2]);
        }
    }
}

proof fn lemma_lost_poll(c: u32, s: Seq<bool>)
    requires
        c < 3,
    ensures
        lost_poll(c, s) matches Some(i) ==> 0 <= i < s.len() && ends_third_miss(c as nat, s, i)
            && forall|j: int| 0 <= j < i ==> !#[trigger] ends_third_miss(c as nat, s, j),
        lost_poll(c, s) is None ==> forall|i: int| !#[trigger] ends_third_miss(c as nat, s, i),
    decreases s.len(),
{
    if s.len() == 0 {
    } else if s[0] && c == 2 {
        assert(ends_third_miss(c as nat, s, 0));
    } else {
        let t = s.drop_first();
        let c1: u32 = if s[0] {
            (c + 1) as u32
        } else {
            0
        };
        lemma_lost_poll(c1, t);
        lemma_shift(c as nat, c1 as nat, s);
        match lost_poll(c1, t) {
            Some(k) => {
                assert(lost_poll(c, s) == Some(k + 1));
                assert forall|j: int| 0 <= j < k + 1 implies !#[trigger] ends_third_miss(c as nat, s, j) by {
                    if j >= 1 {
                        assert(!ends_third_miss(c1 as nat, t, j - 1));
                    }
                }
            },
            None => {
                assert(lost_poll(c, s) is None);
                assert forall|i: int| !#[trigger] ends_third_miss(c as nat, s, i) by {
                    if 1 <= i < s.len() {
                        assert(!ends_third_miss(c1 as nat, t, i - 1));
                    }
                }
            },
        }
    }
}

/// The listener, starting with no overdue look behind it, takes the leader as
/// lost at exactly the first look that is the third overdue look in a row: a
/// look that finds the beat in time starts the count again, and if no three
/// looks in a row are overdue the leader is never taken as lost.
pub proof fn law_leader_lost_after_three_misses(overdue: Seq<bool>)
    ensures
        forall|i: int|
            0 <= i < overdue.len() ==> (lost_poll(0, overdue) == Some(i) <==> (
            #[trigger] ends_third_miss(0, overdue, i) && forall|j: int|
                0 <= j < i ==> !ends_third_miss(0, overdue, j))),
        (lost_poll(0, overdue) is None) <==> (forall|i: int|
            0 <= i < overdue.len() ==> !#[trigger] ends_third_miss(0, overdue, i)),
        forall|i: int|
            #[trigger] ends_third_miss(0, overdue, i) ==> i >= 2 && overdue[i] && overdue[i - 1]
                && overdue[i - 2],
{
    lemma_lost_poll(0, overdue);
    assert forall|i: int|
        0 <= i < overdue.len() implies (lost_poll(0, overdue) == Some(i) <==> (
        #[trigger] ends_third_miss(0, overdue, i) && forall|j: int|
            0 <= j < i ==> !ends_third_miss(0, overdue, j))) by {
        if ends_third_miss(0, overdue, i) && forall|j: int|
            0 <= j < i ==> !ends_third_miss(0, overdue, j) {
            let k = lost_poll(0, overdue)->0;
            if k < i {
                assert(!ends_third_miss(0, overdue, k));
            }
            if k > i {
                assert(!ends_third_miss(0, overdue, i));
            }
        }
    }
}

/// One look of the heartbeat listener, which runs every 300 ms, given how many
/// looks in a row found the beat overdue so far.
pub fn leader_beat_tick(timeout_count: u32, now: i64, node: &Node) -> (r: BeatCheck)
    requires
        timeout_count < u32::MAX,
    ensures
        r == beat_tick_spec(timeout_count, beat_overdue(now, node.last_beat(), node.wait())),
        beat_overdue(now, node.last_beat(), node.wait()) == (now > node.last_beat()),
        !beat_overdue(now, node.last_beat(), node.wait()) ==> r == BeatCheck::Alive,
        beat_overdue(now, node.last_beat(), node.wait()) && timeout_count + 1 != 3 ==> r
            == BeatCheck::Missed((timeout_count + 1) as u32),
        beat_overdue(now, node.last_beat(), node.wait()) && timeout_count + 1 == 3 ==> r
            == BeatCheck::Lost,
{
    proof {
        use_type_invariant(node);
    }
    let wait = node.wait_for_leader;
    let seconds: i64 = wait / 1000;
    assert(seconds == 0);
    if now > node.last_leader_beat + seconds {
        let count = timeout_count + 1;
        if count == 3 {
            BeatCheck::Lost
        } else {
            BeatCheck::Missed(count)
        }
    } else {
        BeatCheck::Alive
    }
}

/// Whether the heartbeat listener runs: only in a cluster of three or more
/// nodes, and then it raises the `listen_leader_beat` flag.
pub fn listen_leader_beat_begin(cluster: &Cluster, state: &mut GlobalState) -> (run: bool)
    ensures
        run == (cluster@.len() >= 3),
        final(state).start_server == old(state).start_server,
        final(state).listen_leader_beat == (run || old(state).listen_leader_beat),
{
    if cluster.len() < 3 {
        false
    } else {
        state.listen_leader_beat = true;
        true
    }
}

/// After the third missed heartbeat this node makes itself a candidate and the
/// listener stops.
pub fn leader_beat_lost(cluster: &mut Cluster, state: &mut GlobalState, local_id: &String)
    requires
        old(cluster)@.contains_key(local_id@),
        old(cluster)@[local_id@].nv < i64::MAX,
    ensures
        final(cluster)@ == with_role(old(cluster)@, local_id@, "candidate"@),
        !final(state).listen_leader_beat,
        final(state).start_server == old(state).start_server,
{
    let candidate = String::from_str("candidate");
    let r = edit::role(cluster, local_id, &candidate);
    assert(r is Ok);
    state.listen_leader_beat = false;
}

/// The table a node writes when it first starts: itself alone, on, a follower,
/// listening at `ip:port`, at term 0 and record version 0.
pub fn cluster_init_table(id: String, ip: &String, port: &String, version: &String) -> (r: Cluster)
    ensures
        r@ == Map::<Seq<char>, NodeRecordView>::empty().insert(
            id@,
            NodeRecordView {
                address: ip@ + ":"@ + port@,
                state: "on"@,
                role: "follower"@,
                version: version@,
                term: 0,
                nv: 0,
                others: Seq::empty(),
            },
        ),
{
    let mut address = ip.clone();
    address.append(":");
    address.append(port.as_str());
    let rec = NodeRecord {
        address,
        state: String::from_str("on"),
        role: String::from_str("follower"),
        version: version.clone(),
        term: 0,
        nv: 0,
        others: Vec::new(),
    };
    assert(fields_view(rec.others@) =~= Seq::empty());
    let mut table = Cluster::new();
    table.insert(id, rec);
    table
}

/// What a peer reports about itself at `/api/node/info`, each text field as the
/// `json` crate renders the reply's field (a missing field reads `null`).
pub struct NodeInfo {
    pub id: String,
    pub state: String,
    pub role: String,
    pub version: String,
    pub term: i64,
    pub nv: i64,
}

/// Why a peer's `/api/node/info` reply gives no `NodeInfo`.
#[derive(PartialEq, Eq, Structural)]
pub enum ReplyError {
    /// The reply is not JSON.
    NotJson,
    /// The reply's `term` is missing or not an `i64`.
    MissingTerm,
    /// The reply's `nv` is missing or not an `i64`.
    MissingNv,
}

/// Whether the `json` crate reads the reply's text fields.
pub open spec fn reply_texts_read(reply: Seq<char>) -> bool {
    &&& json_reply_field_text(reply, "id"@) is Some
    &&& json_reply_field_text(reply, "state"@) is Some
    &&& json_reply_field_text(reply, "role"@) is Some
    &&& json_reply_field_text(reply, "version"@) is Some
}

/// Reads a peer's `/api/node/info` reply: `id`, `state`, `role` and `version`
/// as the `json` crate renders them (a missing field reads `null`), and
/// `term` and `nv` as `i64`. Fails when the reply is not JSON, then when
/// `term`, then when `nv` is not an `i64`.
pub fn node_info_from_reply(reply: &str) -> (r: Result<NodeInfo, ReplyError>)
    ensures
        match r {
            Ok(info) => {
                &&& json_reply_field_text(reply@, "id"@) == Some(info.id@)
                &&& json_reply_field_text(reply@, "state"@) == Some(info.state@)
                &&& json_reply_field_text(reply@, "role"@) == Some(info.role@)
                &&& json_reply_field_text(reply@, "version"@) == Some(info.version@)
                &&& json_reply_field_i64(reply@, "term"@) == Some(info.term)
                &&& json_reply_field_i64(reply@, "nv"@) == Some(info.nv)
            },
            Err(ReplyError::NotJson) => !reply_texts_read(reply@),
            Err(ReplyError::MissingTerm) => reply_texts_read(reply@)
                && json_reply_field_i64(reply@, "term"@) is None,
            Err(ReplyError::MissingNv) => reply_texts_read(reply@)
                && json_reply_field_i64(reply@, "term"@) is Some
                && json_reply_field_i64(reply@, "nv"@) is None,
        },
{
    let id = match json_reply_field(reply, "id") {
        Some(t) => t,
        None => {
            return Err(ReplyError::NotJson);
        },
    };
    let state = match json_reply_field(reply, "state") {
        Some(t) => t,
        None => {
            return Err(ReplyError::NotJson);
        },
    };
    let role = match json_reply_field(reply, "role") {
        Some(t) => t,
        None => {
            return Err(ReplyError::NotJson);
        },
    };
    let version = match json_reply_field(reply, "version") {
        Some(t) => t,
        None => {
            return Err(ReplyError::NotJson);
        },
    };
    let term = match json_reply_number(reply, "term") {
        Some(n) => n,
        None => {
            return Err(ReplyError::MissingTerm);
        },
    };
    let nv = match json_reply_number(reply, "nv") {
        Some(n) => n,
        None => {
            return Err(ReplyError::MissingNv);
        },
    };
    Ok(NodeInfo { id, state, role, version, term, nv })
}

/// Adds (or replaces) the peer described by `info`, reached at `address`,
/// under the id it reported.
pub fn cluster_add(cluster: &mut Cluster, address: &String, info: NodeInfo)
    ensures
        final(cluster)@ == old(cluster)@.insert(
            info.id@,
            NodeRecordView {
                address: address@,
                state: info.state@,
                role: info.role@,
                version: info.version@,
                term: info.term,
                nv: info.nv,
                others: Seq::empty(),
            },
        ),
{
    let rec = NodeRecord {
        address: address.clone(),
        state: info.state,
        role: info.role,
        version: info.version,
        term: info.term,
        nv: info.nv,
        others: Vec::new(),
    };
    assert(fields_view(rec.others@) =~= Seq::empty());
    cluster.insert(info.id, rec);
}

/// What `node add` decides once it knows the id that the address answers with.
#[derive(PartialEq, Eq, Structural)]
pub enum NodeAddCheck {
    /// The address is this node's own.
    LocalAddress,
    /// The table already has a node with that id.
    AlreadyMember,
    /// The node may be added.
    Join,
}

pub fn node_add_check(remote_id: &String, local_id: &String, cluster: &Cluster) -> (r: NodeAddCheck)
    ensures
        r == (if remote_id@ == local_id@ {
            NodeAddCheck::LocalAddress
        } else if cluster@.contains_key(remote_id@) {
            NodeAddCheck::AlreadyMember
        } else {
            NodeAddCheck::Join
        }),
{
    if *remote_id == *local_id {
        NodeAddCheck::LocalAddress
    } else if cluster.contains(remote_id) {
        NodeAddCheck::AlreadyMember
    } else {
        NodeAddCheck::Join
    }
}

/// One round of the task that persists the table: the digest of the table's
/// text, and whether it differs from the digest of the last round (then the
/// text is written to the node file and a synchronisation runs).
pub fn cluster_input_device_step(last_md5: &String, content: &String) -> (r: (String, bool))
    ensures
        r.0@ == md5_hex(content@),
        r.1 == (md5_hex(content@) != last_md5@),
{
    let this_md5 = md5(content.as_str());
    let changed = !(this_md5 == *last_md5);
    (this_md5, changed)
}

} // verus!
