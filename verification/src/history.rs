//! History replay: selecting the most recent bounded window of persisted
//! records for a channel or a peer pair, merging chat and file records in
//! non-decreasing timestamp order, and attaching the reactions whose target
//! belongs to the replayed set.
use vstd::prelude::*;

use crate::packet::{EntryV, HistoryEntry};
use crate::seq_facts::{lemma_filter_push, lemma_to_multiset_insert_at};
use crate::store::{ChatRecord, FileRecord, PrivateRecord, ReactionRecord, Store};
use crate::HISTORY_WINDOW;

verus! {

/// The contents of a sequence of replayed records.
pub open spec fn dv(s: Seq<HistoryEntry>) -> Seq<EntryV> {
    s.map_values(|e: HistoryEntry| e.deep_view())
}

/// The ordering key of a replayed record; a reaction carries no timestamp.
pub open spec fn entry_ts(e: EntryV) -> u64 {
    match e.spec_timestamp() {
        Some(t) => t,
        None => 0,
    }
}

/// Timestamps never decrease along the sequence.
pub open spec fn sorted_entries(s: Seq<EntryV>) -> bool {
    forall|i: int, j: int| 0 <= i < j < s.len() ==> entry_ts(#[trigger] s[i]) <= entry_ts(
        #[trigger] s[j],
    )
}

/// The suffix of at most `w` entries: the most recent records, since the
/// tables are append-only.
pub open spec fn recent<A>(s: Seq<A>, w: int) -> Seq<A> {
    if s.len() <= w {
        s
    } else {
        s.skip(s.len() - w)
    }
}

/// A persisted chat record as it is replayed.
pub open spec fn chat_entry(r: ChatRecord) -> EntryV {
    EntryV::Chat { id: r.id, username: r.username@, message: r.message@, timestamp: r.timestamp }
}

/// A persisted direct message as it is replayed.
pub open spec fn private_entry(r: PrivateRecord) -> EntryV {
    EntryV::Private {
        id: r.id,
        from: r.sender@,
        to: r.recipient@,
        message: r.message@,
        timestamp: r.timestamp,
    }
}

/// A persisted file message as it is replayed.
pub open spec fn file_entry(r: FileRecord) -> EntryV {
    EntryV::File {
        id: r.id,
        from: r.sender@,
        to: r.recipient.deep_view(),
        filename: r.filename@,
        data: r.data@,
        is_image: r.is_image,
        timestamp: r.timestamp,
    }
}

/// A persisted reaction as it is replayed.
pub open spec fn reaction_entry(r: ReactionRecord) -> EntryV {
    EntryV::Reaction { msg_id: r.msg_id, from: r.username@, emoji: r.emoji@ }
}

/// Whether a replayed message record carries the id a reaction targets.
pub open spec fn entry_has_id(e: EntryV, x: u128) -> bool {
    match e {
        EntryV::Chat { id, .. } => id == x,
        EntryV::Private { id, .. } => id == x,
        EntryV::File { id, .. } => id == x,
        EntryV::Reaction { .. } => false,
    }
}

/// The ids of the message records in a replayed set.
pub open spec fn msg_id_set(s: Seq<EntryV>) -> Set<u128> {
    Set::new(|x: u128| exists|e: EntryV| s.contains(e) && entry_has_id(e, x))
}

/// Selects the chat records of one channel.
pub open spec fn chat_pred(ch: Seq<char>) -> spec_fn(ChatRecord) -> bool {
    |r: ChatRecord| r.channel@ == ch
}

/// Selects the channel-wide file records of one channel.
pub open spec fn channel_file_pred(ch: Seq<char>) -> spec_fn(FileRecord) -> bool {
    |r: FileRecord| r.channel@ == ch && r.recipient is None
}

/// Selects the direct messages exchanged between two named users.
pub open spec fn private_pair_pred(me: Seq<char>, other: Seq<char>) -> spec_fn(
    PrivateRecord,
) -> bool {
    |r: PrivateRecord| (r.sender@ == me && r.recipient@ == other) || (r.sender@ == other
        && r.recipient@ == me)
}

/// Selects the direct file records exchanged between two named users.
pub open spec fn file_pair_pred(me: Seq<char>, other: Seq<char>) -> spec_fn(FileRecord) -> bool {
    |r: FileRecord| match r.recipient {
        Some(rec) => (r.sender@ == me && rec@ == other) || (r.sender@ == other && rec@ == me),
        None => false,
    }
}

/// Selects the reactions aimed at a replayed id set.
pub open spec fn reaction_pred(ids: Set<u128>) -> spec_fn(ReactionRecord) -> bool {
    |r: ReactionRecord| ids.contains(r.msg_id)
}

pub open spec fn chat_entry_fn() -> spec_fn(ChatRecord) -> EntryV {
    |r: ChatRecord| chat_entry(r)
}

pub open spec fn private_entry_fn() -> spec_fn(PrivateRecord) -> EntryV {
    |r: PrivateRecord| private_entry(r)
}

pub open spec fn file_entry_fn() -> spec_fn(FileRecord) -> EntryV {
    |r: FileRecord| file_entry(r)
}

pub open spec fn reaction_entry_fn() -> spec_fn(ReactionRecord) -> EntryV {
    |r: ReactionRecord| reaction_entry(r)
}

/// The chat records of one channel, as replay entries, oldest first.
pub open spec fn channel_chat_entries(st: Store, ch: Seq<char>) -> Seq<EntryV> {
    st.chat_messages@.filter(chat_pred(ch)).map_values(chat_entry_fn())
}

/// The channel-wide file records of one channel, as replay entries.
pub open spec fn channel_file_entries(st: Store, ch: Seq<char>) -> Seq<EntryV> {
    st.file_messages@.filter(channel_file_pred(ch)).map_values(file_entry_fn())
}

/// The direct messages exchanged between two named users, as replay entries.
pub open spec fn direct_private_entries(st: Store, me: Seq<char>, other: Seq<char>) -> Seq<
    EntryV,
> {
    st.private_messages@.filter(private_pair_pred(me, other)).map_values(private_entry_fn())
}

/// The direct file records exchanged between two named users.
pub open spec fn direct_file_entries(st: Store, me: Seq<char>, other: Seq<char>) -> Seq<EntryV> {
    st.file_messages@.filter(file_pair_pred(me, other)).map_values(file_entry_fn())
}

/// The message part a channel history request replays, before sorting.
pub open spec fn selected_channel_entries(st: Store, ch: Seq<char>) -> Seq<EntryV> {
    recent(channel_chat_entries(st, ch), HISTORY_WINDOW as int) + recent(
        channel_file_entries(st, ch),
        HISTORY_WINDOW as int,
    )
}

/// The message part a direct history request replays, before sorting.
pub open spec fn selected_direct_entries(st: Store, me: Seq<char>, other: Seq<char>) -> Seq<
    EntryV,
> {
    recent(direct_private_entries(st, me, other), HISTORY_WINDOW as int) + recent(
        direct_file_entries(st, me, other),
        HISTORY_WINDOW as int,
    )
}

/// The reactions whose target id belongs to a replayed set.
pub open spec fn reactions_for(st: Store, ids: Set<u128>) -> Seq<EntryV> {
    st.reactions@.filter(reaction_pred(ids)).map_values(reaction_entry_fn())
}

/// What every history reply looks like: the selected message records in
/// non-decreasing timestamp order, followed by the reactions that target
/// them.
pub open spec fn is_history_reply(r: Seq<EntryV>, selected: Seq<EntryV>, st: Store) -> bool {
    let n = selected.len() as int;
    &&& r.len() >= n
    &&& r.take(n).to_multiset() == selected.to_multiset()
    &&& sorted_entries(r.take(n))
    &&& r.skip(n) == reactions_for(st, msg_id_set(selected))
}

/// Each kind of record contributes at most the configured window to the
/// replayed message part.
pub proof fn lemma_history_window_bound(st: Store, ch: Seq<char>)
    ensures
        recent(channel_chat_entries(st, ch), HISTORY_WINDOW as int).len() <= HISTORY_WINDOW,
        recent(channel_file_entries(st, ch), HISTORY_WINDOW as int).len() <= HISTORY_WINDOW,
        selected_channel_entries(st, ch).len() <= 2 * HISTORY_WINDOW,
{
}

/// The replay timestamp of one record.
pub fn ts_of(e: &HistoryEntry) -> (r: u64)
    ensures
        r == entry_ts(e.deep_view()),
{
    match e {
        HistoryEntry::Chat { timestamp, .. } => *timestamp,
        HistoryEntry::Private { timestamp, .. } => *timestamp,
        HistoryEntry::File { timestamp, .. } => *timestamp,
        HistoryEntry::Reaction { .. } => 0,
    }
}

/// Reorders the records into non-decreasing timestamp order.
pub fn sort_entries(v: &mut Vec<HistoryEntry>)
    ensures
        sorted_entries(dv(final(v)@)),
        dv(final(v)@).to_multiset() == dv(old(v)@).to_multiset(),
        final(v)@.len() == old(v)@.len(),
{
    if v.len() == 0 {
        return ;
    }
    let mut i: usize = 1;
    while i < v.len()
        invariant
            1 <= i <= v@.len(),
            v@.len() == old(v)@.len(),
            dv(v@).to_multiset() == dv(old(v)@).to_multiset(),
            sorted_entries(dv(v@).take(i as int)),
        decreases v@.len() - i,
    {
        let key_ts = ts_of(&v[i]);
        let mut j: usize = 0;
        while j < i
            invariant
                j <= i < v@.len(),
                forall|k: int| 0 <= k < j ==> entry_ts(#[trigger] dv(v@)[k]) <= key_ts,
            ensures
                j <= i,
                forall|k: int| 0 <= k < j ==> entry_ts(#[trigger] dv(v@)[k]) <= key_ts,
                j < i ==> entry_ts(dv(v@)[j as int]) > key_ts,
            decreases i - j,
        {
            if ts_of(&v[j]) > key_ts {
                break ;
            }
            j += 1;
        }
        let ghost before = v@;
        let e = v.remove(i);
        v.insert(j, e);
        proof {
            let bd = dv(before);
            bd.to_multiset_ensures();
            bd.remove(i as int).to_multiset_ensures();
            assert(entry_ts(e.deep_view()) == key_ts);
            assert(before[i as int] == e);
            assert(bd[i as int] == e.deep_view());
            assert(bd.contains(e.deep_view()));
            assert(bd.to_multiset().count(e.deep_view()) > 0);
            assert(dv(v@) =~= bd.remove(i as int).insert(j as int, e.deep_view()));
            assert(bd.remove(i as int).to_multiset() =~= bd.to_multiset().remove(e.deep_view()));
            lemma_to_multiset_insert_at(bd.remove(i as int), j as int, e.deep_view());
            assert(dv(v@).to_multiset() =~= bd.to_multiset()) by {
                assert(bd.to_multiset().remove(e.deep_view()).insert(e.deep_view())
                    =~= bd.to_multiset());
            }
            // The new prefix is the old sorted prefix with the record
            // inserted at its position.
            let p = bd.take(i as int);
            let q = p.insert(j as int, e.deep_view());
            assert(dv(v@).take(i + 1) =~= q);
            assert forall|a: int, b: int| 0 <= a < b < q.len() implies entry_ts(#[trigger] q[a])
                <= entry_ts(#[trigger] q[b]) by {
                assert(forall|k: int| 0 <= k < j ==> q[k] == p[k]);
                assert(q[j as int] == e.deep_view());
                assert(forall|k: int| j < k <= i ==> q[k] == p[k - 1]);
                if a < j && b < j {
                } else if b == j && a < j {
                    assert(entry_ts(q[a]) <= key_ts);
                } else if a == j && b > j {
                    assert(entry_ts(p[j as int]) > key_ts);
                    assert(entry_ts(q[b]) == entry_ts(p[b - 1]));
                    assert(entry_ts(p[b - 1]) >= entry_ts(p[j as int]));
                } else if a > j && b > j {
                    assert(entry_ts(q[a]) == entry_ts(p[a - 1]));
                    assert(entry_ts(q[b]) == entry_ts(p[b - 1]));
                } else {
                    // a < j < b: both sides relate through the prefix order.
                    assert(entry_ts(q[a]) == entry_ts(p[a]));
                    assert(entry_ts(q[b]) == entry_ts(p[b - 1]));
                    assert(entry_ts(p[a]) <= key_ts);
                    assert(entry_ts(p[b - 1]) >= entry_ts(p[j as int]) || b - 1 == j);
                }
            }
        }
        i += 1;
    }
    proof {
        assert(dv(v@).take(v@.len() as int) =~= dv(v@));
    }
}

/// A by-value copy of an opaque message body.
pub(crate) fn copy_bytes(src: &Vec<u8>) -> (r: Vec<u8>)
    ensures
        r@ == src@,
{
    let mut out: Vec<u8> = Vec::new();
    let mut i: usize = 0;
    while i < src.len()
        invariant
            i <= src@.len(),
            out@ == src@.take(i as int),
        decreases src@.len() - i,
    {
        out.push(src[i]);
        i += 1;
        proof {
            assert(src@.take(i as int) =~= src@.take(i - 1).push(src@[i - 1]));
        }
    }
    proof {
        assert(src@.take(src@.len() as int) =~= src@);
    }
    out
}

fn clone_opt_string(src: &Option<String>) -> (r: Option<String>)
    ensures
        r.deep_view() == src.deep_view(),
{
    match src {
        Option::Some(s) => Option::Some(s.clone()),
        Option::None => Option::None,
    }
}

fn chat_entry_of(r: &ChatRecord) -> (e: HistoryEntry)
    ensures
        e.deep_view() == chat_entry(*r),
{
    let e = HistoryEntry::Chat {
        id: r.id,
        username: r.username.clone(),
        message: copy_bytes(&r.message),
        timestamp: r.timestamp,
    };
    proof {
        assert(e.deep_view() =~= chat_entry(*r));
    }
    e
}

fn private_entry_of(r: &PrivateRecord) -> (e: HistoryEntry)
    ensures
        e.deep_view() == private_entry(*r),
{
    let e = HistoryEntry::Private {
        id: r.id,
        from: r.sender.clone(),
        to: r.recipient.clone(),
        message: copy_bytes(&r.message),
        timestamp: r.timestamp,
    };
    proof {
        assert(e.deep_view() =~= private_entry(*r));
    }
    e
}

fn file_entry_of(r: &FileRecord) -> (e: HistoryEntry)
    ensures
        e.deep_view() == file_entry(*r),
{
    let e = HistoryEntry::File {
        id: r.id,
        from: r.sender.clone(),
        to: clone_opt_string(&r.recipient),
        filename: r.filename.clone(),
        data: copy_bytes(&r.data),
        is_image: r.is_image,
        timestamp: r.timestamp,
    };
    proof {
        assert(e.deep_view() =~= file_entry(*r));
    }
    e
}

fn reaction_entry_of(r: &ReactionRecord) -> (e: HistoryEntry)
    ensures
        e.deep_view() == reaction_entry(*r),
{
    let e = HistoryEntry::Reaction {
        msg_id: r.msg_id,
        from: r.username.clone(),
        emoji: r.emoji.clone(),
    };
    proof {
        assert(e.deep_view() =~= reaction_entry(*r));
    }
    e
}

/// Keeps the most recent window of already-selected entries.
fn take_recent(v: Vec<HistoryEntry>) -> (r: Vec<HistoryEntry>)
    ensures
        dv(r@) == recent(dv(v@), HISTORY_WINDOW as int),
{
    let mut v = v;
    let ghost orig = v@;
    let len = v.len();
    if len <= HISTORY_WINDOW {
        return v;
    }
    let tail = v.split_off(len - HISTORY_WINDOW);
    proof {
        assert(dv(tail@) =~= recent(dv(orig), HISTORY_WINDOW as int));
    }
    tail
}

fn collect_channel_chats(st: &Store, channel: &String) -> (r: Vec<HistoryEntry>)
    ensures
        dv(r@) == channel_chat_entries(*st, channel@),
{
    let mut out: Vec<HistoryEntry> = Vec::new();
    let mut i: usize = 0;
    while i < st.chat_messages.len()
        invariant
            i <= st.chat_messages@.len(),
            dv(out@) == st.chat_messages@.take(i as int).filter(chat_pred(channel@)).map_values(
                chat_entry_fn(),
            ),
        decreases st.chat_messages@.len() - i,
    {
        let ghost pre = st.chat_messages@.take(i as int);
        proof {
            assert(st.chat_messages@.take(i + 1) =~= pre.push(st.chat_messages@[i as int]));
            lemma_filter_push(pre, st.chat_messages@[i as int], chat_pred(channel@));
        }
        if st.chat_messages[i].channel == *channel {
            let ghost pre_out = out@;
            let e = chat_entry_of(&st.chat_messages[i]);
            out.push(e);
            proof {
                assert(dv(out@) =~= dv(pre_out).push(chat_entry(st.chat_messages@[i as int])));
                assert(pre.filter(chat_pred(channel@)).push(
                    st.chat_messages@[i as int],
                ).map_values(chat_entry_fn()) =~= pre.filter(chat_pred(channel@)).map_values(
                    chat_entry_fn(),
                ).push(chat_entry(st.chat_messages@[i as int])));
            }
        }
        i += 1;
    }
    proof {
        assert(st.chat_messages@.take(st.chat_messages@.len() as int) =~= st.chat_messages@);
    }
    out
}

fn collect_channel_files(st: &Store, channel: &String) -> (r: Vec<HistoryEntry>)
    ensures
        dv(r@) == channel_file_entries(*st, channel@),
{
    let mut out: Vec<HistoryEntry> = Vec::new();
    let mut i: usize = 0;
    while i < st.file_messages.len()
        invariant
            i <= st.file_messages@.len(),
            dv(out@) == st.file_messages@.take(i as int).filter(
                channel_file_pred(channel@),
            ).map_values(file_entry_fn()),
        decreases st.file_messages@.len() - i,
    {
        let ghost pre = st.file_messages@.take(i as int);
        proof {
            assert(st.file_messages@.take(i + 1) =~= pre.push(st.file_messages@[i as int]));
            lemma_filter_push(pre, st.file_messages@[i as int], channel_file_pred(channel@));
        }
        let matches = st.file_messages[i].channel == *channel && match &st.file_messages[
            i
        ].recipient {
            Option::None => true,
            Option::Some(_) => false,
        };
        if matches {
            let ghost pre_out = out@;
            let e = file_entry_of(&st.file_messages[i]);
            out.push(e);
            proof {
                assert(dv(out@) =~= dv(pre_out).push(file_entry(st.file_messages@[i as int])));
                assert(pre.filter(channel_file_pred(channel@)).push(
                    st.file_messages@[i as int],
                ).map_values(file_entry_fn()) =~= pre.filter(
                    channel_file_pred(channel@),
                ).map_values(file_entry_fn()).push(file_entry(st.file_messages@[i as int])));
            }
        }
        i += 1;
    }
    proof {
        assert(st.file_messages@.take(st.file_messages@.len() as int) =~= st.file_messages@);
    }
    out
}

fn collect_direct_privates(st: &Store, me: &String, other: &String) -> (r: Vec<HistoryEntry>)
    ensures
        dv(r@) == direct_private_entries(*st, me@, other@),
{
    let mut out: Vec<HistoryEntry> = Vec::new();
    let mut i: usize = 0;
    while i < st.private_messages.len()
        invariant
            i <= st.private_messages@.len(),
            dv(out@) == st.private_messages@.take(i as int).filter(
                private_pair_pred(me@, other@),
            ).map_values(private_entry_fn()),
        decreases st.private_messages@.len() - i,
    {
        let ghost pre = st.private_messages@.take(i as int);
        proof {
            assert(st.private_messages@.take(i + 1) =~= pre.push(
                st.private_messages@[i as int],
            ));
            lemma_filter_push(pre, st.private_messages@[i as int], private_pair_pred(me@, other@));
        }
        let rec = &st.private_messages[i];
        let matches = (rec.sender == *me && rec.recipient == *other) || (rec.sender == *other
            && rec.recipient == *me);
        if matches {
            let ghost pre_out = out@;
            let e = private_entry_of(&st.private_messages[i]);
            out.push(e);
            proof {
                assert(dv(out@) =~= dv(pre_out).push(
                    private_entry(st.private_messages@[i as int]),
                ));
                assert(pre.filter(private_pair_pred(me@, other@)).push(
                    st.private_messages@[i as int],
                ).map_values(private_entry_fn()) =~= pre.filter(
                    private_pair_pred(me@, other@),
                ).map_values(private_entry_fn()).push(
                    private_entry(st.private_messages@[i as int]),
                ));
            }
        }
        i += 1;
    }
    proof {
        assert(st.private_messages@.take(st.private_messages@.len() as int)
            =~= st.private_messages@);
    }
    out
}

fn collect_direct_files(st: &Store, me: &String, other: &String) -> (r: Vec<HistoryEntry>)
    ensures
        dv(r@) == direct_file_entries(*st, me@, other@),
{
    let mut out: Vec<HistoryEntry> = Vec::new();
    let mut i: usize = 0;
    while i < st.file_messages.len()
        invariant
            i <= st.file_messages@.len(),
            dv(out@) == st.file_messages@.take(i as int).filter(
                file_pair_pred(me@, other@),
            ).map_values(file_entry_fn()),
        decreases st.file_messages@.len() - i,
    {
        let ghost pre = st.file_messages@.take(i as int);
        proof {
            assert(st.file_messages@.take(i + 1) =~= pre.push(st.file_messages@[i as int]));
            lemma_filter_push(pre, st.file_messages@[i as int], file_pair_pred(me@, other@));
        }
        let rec = &st.file_messages[i];
        let matches = match &rec.recipient {
            Option::Some(recipient) => (rec.sender == *me && *recipient == *other) || (rec.sender
                == *other && *recipient == *me),
            Option::None => false,
        };
        if matches {
            let ghost pre_out = out@;
            let e = file_entry_of(&st.file_messages[i]);
            out.push(e);
            proof {
                assert(dv(out@) =~= dv(pre_out).push(file_entry(st.file_messages@[i as int])));
                assert(pre.filter(file_pair_pred(me@, other@)).push(
                    st.file_messages@[i as int],
                ).map_values(file_entry_fn()) =~= pre.filter(
                    file_pair_pred(me@, other@),
                ).map_values(file_entry_fn()).push(file_entry(st.file_messages@[i as int])));
            }
        }
        i += 1;
    }
    proof {
        assert(st.file_messages@.take(st.file_messages@.len() as int) =~= st.file_messages@);
    }
    out
}

/// The set a sequence of ids stands for.
pub open spec fn ids_set(s: Seq<u128>) -> Set<u128> {
    Set::new(|x: u128| s.contains(x))
}

fn contains_id(ids: &Vec<u128>, x: u128) -> (r: bool)
    ensures
        r == ids@.contains(x),
{
    let mut i: usize = 0;
    while i < ids.len()
        invariant
            i <= ids@.len(),
            forall|j: int| 0 <= j < i ==> ids@[j] != x,
        decreases ids@.len() - i,
    {
        if ids[i] == x {
            return true;
        }
        i += 1;
    }
    false
}

/// The ids of the message records in a replayed set, one entry per record.
fn ids_of(msgs: &Vec<HistoryEntry>) -> (r: Vec<u128>)
    ensures
        ids_set(r@) == msg_id_set(dv(msgs@)),
{
    let mut out: Vec<u128> = Vec::new();
    let mut i: usize = 0;
    while i < msgs.len()
        invariant
            i <= msgs@.len(),
            forall|x: u128|
                #[trigger] out@.contains(x) <==> exists|k: int|
                    0 <= k < i && entry_has_id(#[trigger] dv(msgs@)[k], x),
        decreases msgs@.len() - i,
    {
        let ghost pre = out@;
        let id_opt = match &msgs[i] {
            HistoryEntry::Chat { id, .. } => Option::Some(*id),
            HistoryEntry::Private { id, .. } => Option::Some(*id),
            HistoryEntry::File { id, .. } => Option::Some(*id),
            HistoryEntry::Reaction { .. } => Option::None,
        };
        match id_opt {
            Option::Some(id) => {
                out.push(id);
                proof {
                    assert(entry_has_id(dv(msgs@)[i as int], id));
                    assert forall|x: u128| #[trigger] out@.contains(x) implies exists|k: int|
                        0 <= k < i + 1 && entry_has_id(#[trigger] dv(msgs@)[k], x) by {
                        if x == id {
                            assert(entry_has_id(dv(msgs@)[i as int], x));
                        } else {
                            let j = choose|j: int| 0 <= j < out@.len() && out@[j] == x;
                            assert(pre[j] == x);
                            assert(pre.contains(x));
                        }
                    }
                    assert forall|x: u128|
                        exists|k: int|
                            0 <= k < i + 1 && entry_has_id(#[trigger] dv(msgs@)[k], x) implies
                        #[trigger] out@.contains(x) by {
                        let k = choose|k: int|
                            0 <= k < i + 1 && entry_has_id(#[trigger] dv(msgs@)[k], x);
                        if k < i {
                            assert(pre.contains(x));
                            let j = choose|j: int| 0 <= j < pre.len() && pre[j] == x;
                            assert(out@[j] == x);
                        } else {
                            assert(x == id);
                            assert(out@[out@.len() - 1] == x);
                        }
                    }
                }
            },
            Option::None => {
                proof {
                    assert forall|x: u128| #[trigger] out@.contains(x) implies exists|k: int|
                        0 <= k < i + 1 && entry_has_id(#[trigger] dv(msgs@)[k], x) by {}
                    assert forall|x: u128|
                        exists|k: int|
                            0 <= k < i + 1 && entry_has_id(#[trigger] dv(msgs@)[k], x) implies
                        #[trigger] out@.contains(x) by {
                        let k = choose|k: int|
                            0 <= k < i + 1 && entry_has_id(#[trigger] dv(msgs@)[k], x);
                        assert(k < i);
                    }
                }
            },
        }
        i += 1;
    }
    proof {
        assert forall|x: u128|
            ids_set(out@).contains(x) <==> msg_id_set(dv(msgs@)).contains(x) by {
            if out@.contains(x) {
                let k = choose|k: int|
                    0 <= k < msgs@.len() && entry_has_id(#[trigger] dv(msgs@)[k], x);
                assert(dv(msgs@).contains(dv(msgs@)[k]));
            }
            if msg_id_set(dv(msgs@)).contains(x) {
                let e = choose|e: EntryV| dv(msgs@).contains(e) && entry_has_id(e, x);
                let k = choose|k: int| 0 <= k < dv(msgs@).len() && dv(msgs@)[k] == e;
                assert(entry_has_id(dv(msgs@)[k], x));
            }
        }
        assert(ids_set(out@) =~= msg_id_set(dv(msgs@)));
    }
    out
}

fn collect_reactions(st: &Store, ids: &Vec<u128>) -> (r: Vec<HistoryEntry>)
    ensures
        dv(r@) == reactions_for(*st, ids_set(ids@)),
{
    let mut out: Vec<HistoryEntry> = Vec::new();
    let mut i: usize = 0;
    while i < st.reactions.len()
        invariant
            i <= st.reactions@.len(),
            dv(out@) == st.reactions@.take(i as int).filter(
                reaction_pred(ids_set(ids@)),
            ).map_values(reaction_entry_fn()),
        decreases st.reactions@.len() - i,
    {
        let ghost pre = st.reactions@.take(i as int);
        proof {
            assert(st.reactions@.take(i + 1) =~= pre.push(st.reactions@[i as int]));
            lemma_filter_push(pre, st.reactions@[i as int], reaction_pred(ids_set(ids@)));
        }
        if contains_id(ids, st.reactions[i].msg_id) {
            let ghost pre_out = out@;
            let e = reaction_entry_of(&st.reactions[i]);
            out.push(e);
            proof {
                assert(dv(out@) =~= dv(pre_out).push(reaction_entry(st.reactions@[i as int])));
                assert(pre.filter(reaction_pred(ids_set(ids@))).push(
                    st.reactions@[i as int],
                ).map_values(reaction_entry_fn()) =~= pre.filter(
                    reaction_pred(ids_set(ids@)),
                ).map_values(reaction_entry_fn()).push(reaction_entry(st.reactions@[i as int])));
            }
        }
        i += 1;
    }
    proof {
        assert(st.reactions@.take(st.reactions@.len() as int) =~= st.reactions@);
    }
    out
}

/// The ids of two multiset-equal replayed sets are the same.
proof fn lemma_msg_id_set_permutation(s1: Seq<EntryV>, s2: Seq<EntryV>)
    requires
        s1.to_multiset() == s2.to_multiset(),
    ensures
        msg_id_set(s1) == msg_id_set(s2),
{
    s1.to_multiset_ensures();
    s2.to_multiset_ensures();
    assert forall|x: u128| msg_id_set(s1).contains(x) <==> msg_id_set(s2).contains(x) by {
        if msg_id_set(s1).contains(x) {
            let e = choose|e: EntryV| s1.contains(e) && entry_has_id(e, x);
            assert(s1.to_multiset().count(e) > 0);
            assert(s2.contains(e));
        }
        if msg_id_set(s2).contains(x) {
            let e = choose|e: EntryV| s2.contains(e) && entry_has_id(e, x);
            assert(s2.to_multiset().count(e) > 0);
            assert(s1.contains(e));
        }
    }
    assert(msg_id_set(s1) =~= msg_id_set(s2));
}

/// Replays the recent records of a channel: its chat and channel-wide file
/// messages merged in non-decreasing timestamp order, followed by the
/// reactions that target them.
pub fn history_for_channel(st: &Store, channel: &String) -> (r: Vec<HistoryEntry>)
    ensures
        is_history_reply(dv(r@), selected_channel_entries(*st, channel@), *st),
{
    let chats = collect_channel_chats(st, channel);
    let files = collect_channel_files(st, channel);
    let mut msgs = take_recent(chats);
    let mut file_part = take_recent(files);
    let ghost selected = selected_channel_entries(*st, channel@);
    msgs.append(&mut file_part);
    proof {
        assert(dv(msgs@) =~= selected);
    }
    sort_entries(&mut msgs);
    let ids = ids_of(&msgs);
    let mut reacts = collect_reactions(st, &ids);
    proof {
        lemma_msg_id_set_permutation(dv(msgs@), selected);
    }
    let ghost sorted_part = dv(msgs@);
    msgs.append(&mut reacts);
    proof {
        let n = selected.len() as int;
        assert(dv(msgs@).take(n) =~= sorted_part);
        assert(dv(msgs@).skip(n) =~= reactions_for(*st, msg_id_set(selected)));
    }
    msgs
}

/// Replays the recent records exchanged between two named users: direct and
/// direct-file messages merged in non-decreasing timestamp order, followed
/// by the reactions that target them.
pub fn history_for_direct(st: &Store, me: &String, other: &String) -> (r: Vec<HistoryEntry>)
    ensures
        is_history_reply(dv(r@), selected_direct_entries(*st, me@, other@), *st),
{
    let privates = collect_direct_privates(st, me, other);
    let files = collect_direct_files(st, me, other);
    let mut msgs = take_recent(privates);
    let mut file_part = take_recent(files);
    let ghost selected = selected_direct_entries(*st, me@, other@);
    msgs.append(&mut file_part);
    proof {
        assert(dv(msgs@) =~= selected);
    }
    sort_entries(&mut msgs);
    let ids = ids_of(&msgs);
    let mut reacts = collect_reactions(st, &ids);
    proof {
        lemma_msg_id_set_permutation(dv(msgs@), selected);
    }
    let ghost sorted_part = dv(msgs@);
    msgs.append(&mut reacts);
    proof {
        let n = selected.len() as int;
        assert(dv(msgs@).take(n) =~= sorted_part);
        assert(dv(msgs@).skip(n) =~= reactions_for(*st, msg_id_set(selected)));
    }
    msgs
}

} // verus!
