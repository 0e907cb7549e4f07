use vstd::prelude::*;

verus! {

/// The senders recorded for one `(view, sequence)` pair of one phase, with
/// the block hash of the first vote seen for that pair.
pub struct VoteSet {
    pub view: u64,
    pub sequence: u64,
    pub block_hash: String,
    pub senders: Vec<usize>,
}

/// What a vote table knows of one `(view, sequence)` pair: the senders in
/// the order their first votes arrived.
pub struct VoteEntry {
    pub block_hash: Seq<char>,
    pub senders: Seq<usize>,
}

pub open spec fn vote_key(v: VoteSet) -> (u64, u64) {
    (v.view, v.sequence)
}

pub open spec fn entry_of(v: VoteSet) -> VoteEntry {
    VoteEntry { block_hash: v.block_hash@, senders: v.senders@ }
}

/// Keys are unique and no sender is listed twice under one key.
pub open spec fn table_wf(t: Seq<VoteSet>) -> bool {
    &&& forall|i: int, j: int|
        0 <= i < t.len() && 0 <= j < t.len() && i != j ==> vote_key(#[trigger] t[i]) != vote_key(
            #[trigger] t[j],
        )
    &&& forall|i: int| 0 <= i < t.len() ==> (#[trigger] t[i]).senders@.no_duplicates()
}

/// A vote table as a map from `(view, sequence)` to what was recorded for it.
pub open spec fn table_view(t: Seq<VoteSet>) -> Map<(u64, u64), VoteEntry>
    decreases t.len(),
{
    if t.len() == 0 {
        Map::empty()
    } else {
        table_view(t.drop_last()).insert(vote_key(t.last()), entry_of(t.last()))
    }
}

/// The senders recorded for `key`, in arrival order; none where the key is absent.
pub open spec fn voter_list(m: Map<(u64, u64), VoteEntry>, key: (u64, u64)) -> Seq<usize> {
    if m.contains_key(key) {
        m[key].senders
    } else {
        Seq::empty()
    }
}

/// The set of senders recorded for `key`.
pub open spec fn voters(m: Map<(u64, u64), VoteEntry>, key: (u64, u64)) -> Set<usize> {
    voter_list(m, key).to_set()
}

/// The table after `sender` votes for `key`; a new key takes `block_hash`.
pub open spec fn with_vote(
    m: Map<(u64, u64), VoteEntry>,
    key: (u64, u64),
    block_hash: Seq<char>,
    sender: usize,
) -> Map<(u64, u64), VoteEntry> {
    let hash = if m.contains_key(key) {
        m[key].block_hash
    } else {
        block_hash
    };
    let list = voter_list(m, key);
    m.insert(
        key,
        VoteEntry {
            block_hash: hash,
            senders: if list.contains(sender) {
                list
            } else {
                list.push(sender)
            },
        },
    )
}

/// A vote adds its sender to the set of senders for its key, and touches no other key.
pub proof fn lemma_with_vote_voters(
    m: Map<(u64, u64), VoteEntry>,
    key: (u64, u64),
    block_hash: Seq<char>,
    sender: usize,
)
    ensures
        voters(with_vote(m, key, block_hash, sender), key) == voters(m, key).insert(sender),
        forall|k: (u64, u64)|
            k != key ==> #[trigger] voters(with_vote(m, key, block_hash, sender), k) == voters(m, k),
{
    let list = voter_list(m, key);
    if list.contains(sender) {
        assert(list.to_set().insert(sender) =~= list.to_set());
    } else {
        list.lemma_push_to_set_commute(sender);
    }
}

proof fn lemma_wf_drop_last(t: Seq<VoteSet>)
    requires
        table_wf(t),
        t.len() > 0,
    ensures
        table_wf(t.drop_last()),
{
    let d = t.drop_last();
    assert forall|i: int, j: int|
        0 <= i < d.len() && 0 <= j < d.len() && i != j implies vote_key(#[trigger] d[i])
        != vote_key(#[trigger] d[j]) by {
        assert(d[i] == t[i] && d[j] == t[j]);
    }
    assert forall|i: int| 0 <= i < d.len() implies (#[trigger] d[i]).senders@.no_duplicates() by {
        assert(d[i] == t[i]);
    }
}

/// The entry at position `i` is what the table holds for its key.
pub proof fn lemma_table_lookup(t: Seq<VoteSet>, i: int)
    requires
        table_wf(t),
        0 <= i < t.len(),
    ensures
        table_view(t).contains_key(vote_key(t[i])),
        table_view(t)[vote_key(t[i])] == entry_of(t[i]),
    decreases t.len(),
{
    if i < t.len() - 1 {
        lemma_wf_drop_last(t);
        lemma_table_lookup(t.drop_last(), i);
        assert(t.drop_last()[i] == t[i]);
        assert(vote_key(t[i]) != vote_key(t[t.len() - 1]));
    }
}

/// A key that no entry carries is absent from the table.
pub proof fn lemma_table_absent(t: Seq<VoteSet>, key: (u64, u64))
    requires
        forall|i: int| 0 <= i < t.len() ==> vote_key(#[trigger] t[i]) != key,
    ensures
        !table_view(t).contains_key(key),
    decreases t.len(),
{
    if t.len() > 0 {
        assert forall|i: int| 0 <= i < t.drop_last().len() implies vote_key(
            #[trigger] t.drop_last()[i],
        ) != key by {
            assert(t.drop_last()[i] == t[i]);
        }
        lemma_table_absent(t.drop_last(), key);
        assert(vote_key(t[t.len() - 1]) != key);
    }
}

/// Replacing the entry at `i` by one with the same key replaces that key's entry.
pub proof fn lemma_table_update(t: Seq<VoteSet>, i: int, e: VoteSet)
    requires
        table_wf(t),
        0 <= i < t.len(),
        vote_key(e) == vote_key(t[i]),
    ensures
        table_view(t.update(i, e)) == table_view(t).insert(vote_key(e), entry_of(e)),
    decreases t.len(),
{
    let u = t.update(i, e);
    if i == t.len() - 1 {
        assert(u.drop_last() =~= t.drop_last());
        assert(u.last() == e);
        if t.len() > 1 {
            lemma_wf_drop_last(t);
        }
        assert(table_view(u) =~= table_view(t).insert(vote_key(e), entry_of(e)));
    } else {
        lemma_wf_drop_last(t);
        lemma_table_update(t.drop_last(), i, e);
        assert(u.drop_last() =~= t.drop_last().update(i, e));
        assert(u.last() == t.last());
        assert(vote_key(t[t.len() - 1]) != vote_key(t[i]));
        assert(table_view(u) =~= table_view(t).insert(vote_key(e), entry_of(e)));
    }
}

/// Position of the entry for `(view, sequence)`, if there is one.
pub fn find_entry(t: &Vec<VoteSet>, view: u64, sequence: u64) -> (r: Option<usize>)
    ensures
        r matches Some(i) ==> i < t@.len() && vote_key(t@[i as int]) == (view, sequence),
        r is None ==> forall|i: int| 0 <= i < t@.len() ==> vote_key(#[trigger] t@[i]) != (
            view,
            sequence,
        ),
{
    let mut i: usize = 0;
    while i < t.len()
        invariant
            i <= t@.len(),
            forall|k: int| 0 <= k < i ==> vote_key(#[trigger] t@[k]) != (view, sequence),
        decreases t@.len() - i,
    {
        if t[i].view == view && t[i].sequence == sequence {
            return Some(i);
        }
        i = i + 1;
    }
    None
}

fn contains_sender(senders: &Vec<usize>, sender: usize) -> (r: bool)
    ensures
        r == senders@.contains(sender),
{
    let mut i: usize = 0;
    while i < senders.len()
        invariant
            i <= senders@.len(),
            forall|k: int| 0 <= k < i ==> senders@[k] != sender,
        decreases senders@.len() - i,
    {
        if senders[i] == sender {
            return true;
        }
        i = i + 1;
    }
    false
}

/// How many distinct senders voted for `(view, sequence)`.
pub fn vote_count(t: &Vec<VoteSet>, view: u64, sequence: u64) -> (r: usize)
    requires
        table_wf(t@),
    ensures
        r == voters(table_view(t@), (view, sequence)).len(),
{
    match find_entry(t, view, sequence) {
        Some(i) => {
            proof {
                lemma_table_lookup(t@, i as int);
                t@[i as int].senders@.unique_seq_to_set();
            }
            t[i].senders.len()
        },
        None => {
            proof {
                lemma_table_absent(t@, (view, sequence));
                assert(Seq::<usize>::empty().to_set() =~= Set::<usize>::empty());
            }
            0
        },
    }
}

/// Records that `sender` voted for `(view, sequence)`; a sender already
/// recorded there changes nothing. Returns how many distinct senders the
/// pair now has.
pub fn record_vote(
    t: &mut Vec<VoteSet>,
    view: u64,
    sequence: u64,
    block_hash: &String,
    sender: usize,
) -> (count: usize)
    requires
        table_wf(old(t)@),
    ensures
        table_wf(final(t)@),
        table_view(final(t)@) == with_vote(table_view(old(t)@), (view, sequence), block_hash@, sender),
        count == voters(table_view(final(t)@), (view, sequence)).len(),
{
    let key = (view, sequence);
    let ghost m = table_view(t@);
    match find_entry(t, view, sequence) {
        Some(i) => {
            proof {
                lemma_table_lookup(t@, i as int);
            }
            let mut e = VoteSet { view: 0, sequence: 0, block_hash: String::new(), senders: Vec::new() };
            t.set_and_swap(i, &mut e);
            let ghost before = e.senders@;
            if !contains_sender(&e.senders, sender) {
                e.senders.push(sender);
                proof {
                        assert forall|a: int, b: int|
                        0 <= a < e.senders@.len() && 0 <= b < e.senders@.len() && a != b implies
                        e.senders@[a] != e.senders@[b] by {
                        if b == before.len() {
                            assert(before.contains(e.senders@[a]) ==> e.senders@[a] != sender);
                            assert(e.senders@[a] == before[a]);
                        } else if a == before.len() {
                            assert(e.senders@[b] == before[b]);
                        }
                    }
                }
            }
            let count = e.senders.len();
            t.set(i, e);
            proof {
                let old_t = old(t)@;
                assert(t@ =~= old_t.update(i as int, e));
                lemma_table_update(old_t, i as int, e);
                assert(table_view(t@) =~= with_vote(m, key, block_hash@, sender));
                assert forall|a: int, b: int|
                    0 <= a < t@.len() && 0 <= b < t@.len() && a != b implies vote_key(
                    #[trigger] t@[a],
                ) != vote_key(#[trigger] t@[b]) by {
                    assert(vote_key(t@[a]) == vote_key(old_t[a]));
                    assert(vote_key(t@[b]) == vote_key(old_t[b]));
                }
                assert forall|a: int| 0 <= a < t@.len() implies (
                #[trigger] t@[a]).senders@.no_duplicates() by {
                    if a != i {
                        assert(t@[a] == old_t[a]);
                    }
                }
                e.senders@.unique_seq_to_set();
                lemma_table_lookup(t@, i as int);
            }
            count
        },
        None => {
            let mut senders: Vec<usize> = Vec::new();
            senders.push(sender);
            let e = VoteSet { view, sequence, block_hash: block_hash.clone(), senders };
            t.push(e);
            proof {
                let old_t = old(t)@;
                lemma_table_absent(old_t, key);
                assert(t@.drop_last() =~= old_t);
                assert(entry_of(e).senders =~= Seq::<usize>::empty().push(sender));
                assert(table_view(t@) =~= with_vote(m, key, block_hash@, sender));
                assert forall|a: int, b: int|
                    0 <= a < t@.len() && 0 <= b < t@.len() && a != b implies vote_key(
                    #[trigger] t@[a],
                ) != vote_key(#[trigger] t@[b]) by {
                    if a < old_t.len() {
                        assert(t@[a] == old_t[a]);
                    }
                    if b < old_t.len() {
                        assert(t@[b] == old_t[b]);
                    }
                }
                assert forall|a: int| 0 <= a < t@.len() implies (
                #[trigger] t@[a]).senders@.no_duplicates() by {
                    if a < old_t.len() {
                        assert(t@[a] == old_t[a]);
                    }
                }
                e.senders@.unique_seq_to_set();
                lemma_table_lookup(t@, (t@.len() - 1) as int);
            }
            1
        },
    }
}

} // verus!
