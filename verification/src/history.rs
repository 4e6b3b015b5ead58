//! Conversation-history management: the shape and pairing invariants of a
//! history, and turn-based trimming with its laws.

use vstd::prelude::*;

use crate::chat::{hist_model, ChatMessage, MsgModel};

verus! {

broadcast use vstd::seq_lib::group_filter_ensures;

pub open spec fn is_system(m: MsgModel) -> bool {
    m matches MsgModel::System { .. }
}

pub open spec fn is_user(m: MsgModel) -> bool {
    m matches MsgModel::User { .. }
}

pub open spec fn is_assistant(m: MsgModel) -> bool {
    m matches MsgModel::Assistant { .. }
}

pub open spec fn is_tool(m: MsgModel) -> bool {
    m matches MsgModel::Tool { .. }
}

pub open spec fn user_pred() -> spec_fn(MsgModel) -> bool {
    |m: MsgModel| is_user(m)
}

/// The subsequence of user messages of a history.
pub open spec fn users_of(h: Seq<MsgModel>) -> Seq<MsgModel> {
    h.filter(user_pred())
}

/// Count of user messages in a history.
pub open spec fn user_count(h: Seq<MsgModel>) -> nat {
    users_of(h).len()
}

/// History shape: the system prompt sits at index 0 and nowhere else.
pub open spec fn history_shape(h: Seq<MsgModel>) -> bool {
    &&& h.len() >= 1
    &&& is_system(h[0])
    &&& forall|i: int| 1 <= i < h.len() ==> !is_system(#[trigger] h[i])
}

/// The tool calls an assistant message carries, if any.
pub open spec fn assistant_calls(m: MsgModel) -> Option<Seq<crate::chat::CallModel>> {
    match m {
        MsgModel::Assistant { tool_calls, .. } => tool_calls,
        _ => None,
    }
}

/// How many tool calls an assistant message carries.
pub open spec fn assistant_call_count(m: MsgModel) -> int {
    match assistant_calls(m) {
        Some(calls) => calls.len() as int,
        None => 0,
    }
}

/// The id of the `l`-th tool call of an assistant message.
pub open spec fn assistant_call_id(m: MsgModel, l: int) -> Seq<char> {
    match assistant_calls(m) {
        Some(calls) => if 0 <= l < calls.len() {
            calls[l].id
        } else {
            Seq::empty()
        },
        None => Seq::empty(),
    }
}

/// Whether the assistant message `m` carries a tool call with id `id`.
pub open spec fn assistant_carries_id(m: MsgModel, id: Seq<char>) -> bool {
    exists|l: int| 0 <= l < assistant_call_count(m) && #[trigger] assistant_call_id(m, l) == id
}

/// The call id a tool message answers; the empty sequence for other messages.
pub open spec fn tool_id_of(m: MsgModel) -> Seq<char> {
    match m {
        MsgModel::Tool { tool_call_id, .. } => tool_call_id,
        _ => Seq::empty(),
    }
}

/// Tool-result pairing: every tool message answers a tool call that an
/// earlier assistant message issued.
pub open spec fn history_paired(h: Seq<MsgModel>) -> bool {
    forall|j: int|
        0 <= j < h.len() && is_tool(#[trigger] h[j]) ==> exists|k: int|
            0 <= k < j && assistant_carries_id(#[trigger] h[k], tool_id_of(h[j]))
}

/// Clusters intact: each tool message follows its assistant with no user
/// message standing between the two. Histories built by the tool loop have
/// this form, and trimming relies on it to keep pairing intact.
pub open spec fn clusters_intact(h: Seq<MsgModel>) -> bool {
    forall|j: int|
        0 <= j < h.len() && is_tool(#[trigger] h[j]) ==> exists|k: int|
            0 <= k < j && assistant_carries_id(#[trigger] h[k], tool_id_of(h[j])) && (forall|p: int|
                k < p < j ==> !is_user(#[trigger] h[p]))
}

/// The index of the `(skip+1)`-th user message at or after position `i`,
/// or `-1` when there are not that many.
pub open spec fn find_cut(h: Seq<MsgModel>, skip: int, i: int) -> int
    decreases h.len() - i,
{
    if i < 0 || i >= h.len() {
        -1
    } else if is_user(h[i]) {
        if skip <= 0 {
            i
        } else {
            find_cut(h, skip - 1, i + 1)
        }
    } else {
        find_cut(h, skip, i + 1)
    }
}

/// What trimming a history to `max_turns` user turns yields.
///
/// A budget of zero means unlimited. Otherwise, when the history holds more
/// user messages than the budget, everything from index 1 up to (excluding)
/// the first user message of the kept window is removed.
pub open spec fn trim_model(h: Seq<MsgModel>, max_turns: nat) -> Seq<MsgModel> {
    let u = user_count(h);
    if max_turns == 0 || u <= max_turns {
        h
    } else {
        let c = find_cut(h, u - max_turns, 1);
        if c < 0 {
            h
        } else {
            seq![h[0]] + h.skip(c)
        }
    }
}

/// Properties of the cut search: the found index is a user message, lies in
/// range, and exactly `skip` user messages stand in `[i, c)`.
proof fn lemma_find_cut(h: Seq<MsgModel>, skip: int, i: int)
    requires
        0 <= i <= h.len(),
        skip >= 0,
    ensures
        ({
            let c = find_cut(h, skip, i);
            &&& c >= 0 ==> {
                &&& i <= c < h.len()
                &&& is_user(h[c])
                &&& users_of(h.subrange(i, c)).len() == skip
            }
            &&& c < 0 ==> users_of(h.subrange(i, h.len() as int)).len() <= skip
        }),
    decreases h.len() - i,
{
    let c = find_cut(h, skip, i);
    if i >= h.len() {
        assert(h.subrange(i, h.len() as int) =~= Seq::<MsgModel>::empty());
        assert(users_of(Seq::<MsgModel>::empty()).len() == 0) by {
            reveal_with_fuel(Seq::filter, 2);
        }
    } else {
        let head = h.subrange(i, i + 1);
        assert(users_of(head).len() == (if is_user(h[i]) { 1nat } else { 0nat })) by {
            reveal_with_fuel(Seq::filter, 2);
            assert(head.drop_last() =~= Seq::<MsgModel>::empty());
            assert(head.last() == h[i]);
        }
        if is_user(h[i]) && skip <= 0 {
            assert(c == i);
            assert(h.subrange(i, c) =~= Seq::<MsgModel>::empty());
            assert(users_of(Seq::<MsgModel>::empty()).len() == 0) by {
                reveal_with_fuel(Seq::filter, 2);
            }
        } else {
            let skip2 = if is_user(h[i]) { skip - 1 } else { skip };
            lemma_find_cut(h, skip2, i + 1);
            let c2 = find_cut(h, skip2, i + 1);
            assert(c == c2);
            if c2 >= 0 {
                assert(h.subrange(i, c2) =~= head + h.subrange(i + 1, c2));
                Seq::filter_distributes_over_add(head, h.subrange(i + 1, c2), user_pred());
            } else {
                assert(h.subrange(i, h.len() as int) =~= head + h.subrange(
                    i + 1,
                    h.len() as int,
                ));
                Seq::filter_distributes_over_add(
                    head,
                    h.subrange(i + 1, h.len() as int),
                    user_pred(),
                );
            }
        }
    }
}

/// Splitting a sequence splits its user subsequence.
proof fn lemma_users_split(h: Seq<MsgModel>, m: int)
    requires
        0 <= m <= h.len(),
    ensures
        users_of(h) == users_of(h.take(m)) + users_of(h.skip(m)),
{
    assert(h =~= h.take(m) + h.skip(m));
    Seq::filter_distributes_over_add(h.take(m), h.skip(m), user_pred());
}

/// Trim identity: a zero budget, or a history within budget, is untouched.
///
/// This is stated directly by `trim_model`'s first branch; the lemma records
/// it as a law of its own.
pub proof fn lemma_trim_identity(h: Seq<MsgModel>, max_turns: nat)
    ensures
        trim_model(h, 0) == h,
        user_count(h) <= max_turns ==> trim_model(h, max_turns) == h,
{
}

/// Trim monotonicity: trimming never invents user turns, never keeps more
/// than `max(n, user_count(h))`, and the kept user messages are exactly the
/// most recent ones of the original, unchanged and in order.
pub proof fn lemma_trim_monotone(h: Seq<MsgModel>, max_turns: nat)
    requires
        h.len() >= 1,
        !is_user(h[0]),
    ensures
        user_count(trim_model(h, max_turns)) <= user_count(h),
        user_count(trim_model(h, max_turns)) <= vstd::math::max(
            max_turns as int,
            user_count(h) as int,
        ),
        users_of(trim_model(h, max_turns)) == users_of(h).skip(
            user_count(h) as int - kept_user_turns(h, max_turns) as int,
        ),
        user_count(trim_model(h, max_turns)) == kept_user_turns(h, max_turns),
{
    let u = user_count(h);
    let t = trim_model(h, max_turns);
    if max_turns == 0 || u <= max_turns {
        assert(users_of(h).skip(0) =~= users_of(h));
    } else {
        let skip = u - max_turns;
        let c = find_cut(h, skip as int, 1);
        lemma_find_cut(h, skip as int, 1);
        // Users in positions >= 1 are all the users, since h[0] is no user.
        let head = h.subrange(0, 1);
        assert(h =~= head + h.skip(1));
        Seq::filter_distributes_over_add(head, h.skip(1), user_pred());
        assert(users_of(head).len() == 0) by {
            reveal_with_fuel(Seq::filter, 2);
            assert(head.drop_last() =~= Seq::<MsgModel>::empty());
        }
        assert(users_of(head) =~= Seq::<MsgModel>::empty());
        assert(users_of(h) == users_of(h.skip(1)));
        if c < 0 {
            // Fewer than `skip` users at positions >= 1: impossible, since
            // positions >= 1 hold all `u > skip` users.
            assert(h.subrange(1, h.len() as int) =~= h.skip(1));
            assert(false);
        }
        assert(t == seq![h[0]] + h.skip(c));
        Seq::filter_distributes_over_add(seq![h[0]], h.skip(c), user_pred());
        assert(users_of(seq![h[0]]).len() == 0) by {
            reveal_with_fuel(Seq::filter, 2);
            assert(seq![h[0]].drop_last() =~= Seq::<MsgModel>::empty());
        }
        assert(users_of(seq![h[0]]) =~= Seq::<MsgModel>::empty());
        assert(users_of(t) == users_of(h.skip(c)));
        // Split the original at the cut: `skip` users stand before it,
        // so the kept window holds the last `max_turns` users.
        lemma_users_split(h, c);
        assert(users_of(h) == users_of(h.take(c)) + users_of(h.skip(c)));
        assert(h.take(c) =~= head + h.subrange(1, c));
        Seq::filter_distributes_over_add(head, h.subrange(1, c), user_pred());
        assert(users_of(h.take(c)).len() == skip);
        assert(users_of(h.skip(c)).len() == u - skip);
        assert(users_of(t).len() == max_turns);
        assert(users_of(t) =~= users_of(h).skip(skip as int));
    }
}

/// How many user turns survive a trim to `max_turns`: all of them under a
/// zero (unlimited) budget or when within budget, else exactly the budget.
pub open spec fn kept_user_turns(h: Seq<MsgModel>, max_turns: nat) -> nat {
    if max_turns == 0 || user_count(h) <= max_turns {
        user_count(h)
    } else {
        max_turns
    }
}

/// Appending one message extends the user subsequence exactly when the
/// message is a user message.
pub proof fn lemma_users_push(s: Seq<MsgModel>, m: MsgModel)
    ensures
        users_of(s.push(m)) == if is_user(m) {
            users_of(s).push(m)
        } else {
            users_of(s)
        },
{
    reveal_with_fuel(Seq::filter, 2);
    assert(s.push(m).drop_last() =~= s);
    assert(s.push(m).last() == m);
}

/// Trimming keeps the shape invariant: the system prompt stays at index 0,
/// and no system message enters the kept window.
pub proof fn lemma_trim_preserves_shape(h: Seq<MsgModel>, max_turns: nat)
    requires
        history_shape(h),
    ensures
        history_shape(trim_model(h, max_turns)),
{
    let u = user_count(h);
    let t = trim_model(h, max_turns);
    if !(max_turns == 0 || u <= max_turns) {
        let c = find_cut(h, u - max_turns, 1);
        lemma_find_cut(h, u - max_turns, 1);
        if c >= 0 {
            assert(t == seq![h[0]] + h.skip(c));
            assert(t[0] == h[0]);
            assert(forall|i: int| 1 <= i < t.len() ==> #[trigger] t[i] == h[c + i - 1]);
        }
    }
}

/// Clustered pairing implies plain pairing.
pub proof fn lemma_clusters_paired(h: Seq<MsgModel>)
    requires
        clusters_intact(h),
    ensures
        history_paired(h),
{
}

/// Trimming a clustered history keeps its clusters, and with them the
/// tool-result pairing: the cut always lands on a user message, so no tool
/// message is severed from the assistant that called for it.
pub proof fn lemma_trim_preserves_pairing(h: Seq<MsgModel>, max_turns: nat)
    requires
        clusters_intact(h),
    ensures
        clusters_intact(trim_model(h, max_turns)),
        history_paired(trim_model(h, max_turns)),
{
    let u = user_count(h);
    let t = trim_model(h, max_turns);
    if !(max_turns == 0 || u <= max_turns) {
        let c = find_cut(h, u - max_turns, 1);
        lemma_find_cut(h, u - max_turns, 1);
        if c >= 0 {
            assert(t == seq![h[0]] + h.skip(c));
            assert forall|j: int| 0 <= j < t.len() && is_tool(#[trigger] t[j]) implies exists|
                k: int,
            |
                0 <= k < j && assistant_carries_id(t[k], tool_id_of(t[j])) && (forall|p: int|
                    k < p < j ==> !is_user(t[p])) by {
                if j == 0 {
                    // Tool at index 0 of the trimmed history is the original
                    // system slot; pairing there needs an earlier assistant,
                    // and indeed h[0] was a tool only if h had one at 0.
                    assert(t[0] == h[0]);
                    let k0 = choose|k: int|
                        0 <= k < 0 && assistant_carries_id(h[k], tool_id_of(h[0]));
                    assert(false);
                } else {
                    let o = c + j - 1;
                    assert(t[j] == h[o]);
                    assert(is_tool(h[o]));
                    let k = choose|k: int|
                        0 <= k < o && assistant_carries_id(#[trigger] h[k], tool_id_of(h[o])) && (
                        forall|p: int| k < p < o ==> !is_user(#[trigger] h[p]));
                    // The assistant cannot stand before the cut: the cut is a
                    // user message strictly between it and the tool result.
                    assert(is_user(h[c]));
                    assert(o != c);
                    if k < c {
                        assert(k < c < o);
                        assert(!is_user(h[c]));
                        assert(false);
                    }
                    let k2 = k - c + 1;
                    assert(t[k2] == h[k]);
                    assert(0 <= k2 < j);
                    assert(assistant_carries_id(t[k2], tool_id_of(t[j])));
                    assert(forall|p: int| k2 < p < j ==> #[trigger] t[p] == h[c + p - 1]);
                    assert(forall|p: int| k2 < p < j ==> !is_user(#[trigger] t[p]));
                }
            }
        }
    }
    lemma_clusters_paired(t);
}

/// Is this message a user message?
pub fn msg_is_user(m: &ChatMessage) -> (b: bool)
    ensures
        b == is_user(m@),
{
    matches!(m, ChatMessage::User { .. })
}

/// Trim conversation history to keep at most `max_turns` user turns.
///
/// The system message at index 0 is always preserved; `max_turns == 0`
/// means no limit. When the history holds more user turns than the budget,
/// the range from index 1 up to the first kept user turn is removed.
pub fn trim_history(history: &mut Vec<ChatMessage>, max_turns: usize)
    ensures
        hist_model(final(history)@) == trim_model(hist_model(old(history)@), max_turns as nat),
{
    let ghost hm = hist_model(history@);
    let h_len = history.len();
    proof {
        assert(hm.len() == h_len);
    }
    if max_turns == 0 {
        return ;
    }
    // Count the user messages.
    let mut u: usize = 0;
    let mut i: usize = 0;
    while i < h_len
        invariant
            hm == hist_model(history@),
            h_len == hm.len(),
            i <= h_len,
            u == user_count(hm.take(i as int)),
            u <= i,
        decreases h_len - i,
    {
        proof {
            lemma_users_push(hm.take(i as int), hm[i as int]);
            assert(hm.take(i as int + 1) =~= hm.take(i as int).push(hm[i as int]));
            assert(hm[i as int] == history@[i as int]@);
        }
        if msg_is_user(&history[i]) {
            u = u + 1;
        }
        i = i + 1;
    }
    proof {
        assert(hm.take(h_len as int) =~= hm);
    }
    if u <= max_turns {
        return ;
    }
    // Find the first user message of the kept window.
    let skip = u - max_turns;
    let mut remaining = skip;
    let mut idx: usize = 1;
    let mut cut: usize = 0;
    let mut found = false;
    while idx < h_len && !found
        invariant
            hm == hist_model(history@),
            h_len == hm.len(),
            1 <= idx <= h_len,
            !found ==> find_cut(hm, skip as int, 1) == find_cut(hm, remaining as int, idx as int),
            !found ==> remaining <= skip,
            found ==> find_cut(hm, skip as int, 1) == cut as int && 1 <= cut < h_len,
        decreases h_len - idx,
    {
        proof {
            assert(hm[idx as int] == history@[idx as int]@);
        }
        if msg_is_user(&history[idx]) {
            if remaining == 0 {
                cut = idx;
                found = true;
            } else {
                remaining = remaining - 1;
            }
        }
        idx = idx + 1;
    }
    if !found {
        proof {
            assert(find_cut(hm, skip as int, 1) == -1);
        }
        return ;
    }
    // Rebuild: the system message plus everything from the cut onward.
    let mut kept: Vec<ChatMessage> = Vec::new();
    kept.push(history[0].duplicate());
    proof {
        assert(hist_model(kept@) =~= seq![hm[0]] + hm.subrange(cut as int, cut as int));
    }
    let mut j: usize = cut;
    while j < h_len
        invariant
            hm == hist_model(history@),
            h_len == hm.len(),
            cut <= j <= h_len,
            1 <= cut < h_len,
            hist_model(kept@) == seq![hm[0]] + hm.subrange(cut as int, j as int),
        decreases h_len - j,
    {
        let d = history[j].duplicate();
        let ghost prev = kept@;
        kept.push(d);
        j = j + 1;
        proof {
            assert(kept@ == prev.push(d));
            assert(hist_model(kept@) =~= hist_model(prev).push(d@));
            assert(d@ == hm[j - 1]);
            assert(hm.subrange(cut as int, j as int) =~= hm.subrange(cut as int, j - 1).push(
                hm[j - 1],
            ));
            assert((seq![hm[0]] + hm.subrange(cut as int, j as int)) =~= (seq![hm[0]] + hm.subrange(
                cut as int,
                j - 1,
            )).push(hm[j - 1]));
        }
    }
    proof {
        assert(hm.subrange(cut as int, h_len as int) =~= hm.skip(cut as int));
    }
    *history = kept;
}

} // verus!

