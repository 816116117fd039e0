use vstd::prelude::*;
use crate::records::Message;

verus! {

/// Every message of `s` is at least as new as every message after it.
pub open spec fn newest_first(s: Seq<Message>) -> bool {
    forall|i: int, j: int| 0 <= i < j < s.len() ==> s[i].date_created >= s[j].date_created
}

/// Where a message created at `date` joins `sorted`: before the first message
/// that is not newer than it.
pub open spec fn insertion_point(sorted: Seq<Message>, date: u128) -> nat
    decreases sorted.len(),
{
    if sorted.len() == 0 {
        0
    } else if sorted[0].date_created <= date {
        0
    } else {
        1 + insertion_point(sorted.drop_first(), date)
    }
}

/// `s` ordered newest first; messages created at the same instant keep their
/// order in `s`.
pub open spec fn sorted_newest_first(s: Seq<Message>) -> Seq<Message>
    decreases s.len(),
{
    if s.len() == 0 {
        s
    } else {
        let rest = sorted_newest_first(s.drop_first());
        rest.insert(insertion_point(rest, s[0].date_created) as int, s[0])
    }
}

/// Selects the messages created at `date`.
pub open spec fn created_at(date: u128) -> spec_fn(Message) -> bool {
    |m: Message| m.date_created == date
}

proof fn lemma_insertion_point_bounds(s: Seq<Message>, date: u128)
    ensures
        insertion_point(s, date) <= s.len(),
        forall|q: int| 0 <= q < insertion_point(s, date) ==> s[q].date_created > date,
        insertion_point(s, date) < s.len() ==> s[insertion_point(s, date) as int].date_created
            <= date,
    decreases s.len(),
{
    if s.len() > 0 && s[0].date_created > date {
        lemma_insertion_point_bounds(s.drop_first(), date);
        assert forall|q: int| 0 <= q < insertion_point(s, date) implies s[q].date_created > date by {
            if q > 0 {
                assert(s[q] == s.drop_first()[q - 1]);
            }
        }
    }
}

proof fn lemma_insertion_point_at(s: Seq<Message>, date: u128, p: int)
    requires
        newest_first(s),
        0 <= p <= s.len(),
        p == 0 || s[p - 1].date_created > date,
        forall|q: int| p <= q < s.len() ==> s[q].date_created <= date,
    ensures
        insertion_point(s, date) == p,
    decreases s.len(),
{
    if p > 0 {
        assert(s[0].date_created >= s[p - 1].date_created);
        let t = s.drop_first();
        assert forall|i: int, j: int| 0 <= i < j < t.len() implies t[i].date_created
            >= t[j].date_created by {
            assert(t[i] == s[i + 1] && t[j] == s[j + 1]);
        }
        assert forall|q: int| p - 1 <= q < t.len() implies t[q].date_created <= date by {
            assert(t[q] == s[q + 1]);
        }
        if p > 1 {
            assert(t[p - 2] == s[p - 1]);
        }
        lemma_insertion_point_at(t, date, p - 1);
    }
}

proof fn lemma_insert_keeps_order(s: Seq<Message>, m: Message)
    requires
        newest_first(s),
    ensures
        newest_first(s.insert(insertion_point(s, m.date_created) as int, m)),
{
    let p = insertion_point(s, m.date_created) as int;
    lemma_insertion_point_bounds(s, m.date_created);
    let r = s.insert(p, m);
    assert forall|q: int| p <= q < s.len() implies s[q].date_created <= m.date_created by {
        if q > p {
            assert(s[p].date_created >= s[q].date_created);
        }
    }
    assert forall|i: int, j: int| 0 <= i < j < r.len() implies r[i].date_created
        >= r[j].date_created by {
        if j < p {
            assert(r[i] == s[i] && r[j] == s[j]);
        } else if j == p {
            assert(r[i] == s[i]);
        } else if i < p {
            assert(r[i] == s[i] && r[j] == s[j - 1]);
        } else if i == p {
            assert(r[j] == s[j - 1]);
        } else {
            assert(r[i] == s[i - 1] && r[j] == s[j - 1]);
        }
    }
}

/// The ordering puts newer messages first.
pub proof fn lemma_sorted_is_newest_first(s: Seq<Message>)
    ensures
        newest_first(sorted_newest_first(s)),
    decreases s.len(),
{
    if s.len() > 0 {
        lemma_sorted_is_newest_first(s.drop_first());
        lemma_insert_keeps_order(sorted_newest_first(s.drop_first()), s[0]);
    }
}

/// The ordering keeps every message and adds none.
pub proof fn lemma_sorted_is_permutation(s: Seq<Message>)
    ensures
        sorted_newest_first(s).to_multiset() == s.to_multiset(),
    decreases s.len(),
{
    broadcast use vstd::seq_lib::to_multiset_insert;
    if s.len() > 0 {
        let rest = sorted_newest_first(s.drop_first());
        lemma_sorted_is_permutation(s.drop_first());
        lemma_insertion_point_bounds(rest, s[0].date_created);
        assert(s =~= s.drop_first().insert(0, s[0]));
    }
}

/// The ordering is stable: the messages created at any one instant come out
/// in the order in which they came in.
pub proof fn lemma_sorted_is_stable(s: Seq<Message>, date: u128)
    ensures
        sorted_newest_first(s).filter(created_at(date)) == s.filter(created_at(date)),
    decreases s.len(),
{
    if s.len() > 0 {
        let pred = created_at(date);
        let m = s[0];
        let rest = sorted_newest_first(s.drop_first());
        let p = insertion_point(rest, m.date_created) as int;
        lemma_sorted_is_stable(s.drop_first(), date);
        lemma_sorted_is_newest_first(s.drop_first());
        lemma_insertion_point_bounds(rest, m.date_created);
        let front = rest.take(p);
        let back = rest.skip(p);
        assert(rest =~= front + back);
        assert(rest.insert(p, m) =~= front + (seq![m] + back));
        Seq::filter_distributes_over_add(front, back, pred);
        Seq::filter_distributes_over_add(front, seq![m] + back, pred);
        back.lemma_filter_prepend(m, pred);
        assert(s =~= seq![m] + s.drop_first());
        s.drop_first().lemma_filter_prepend(m, pred);
        if pred(m) {
            assert forall|q: int| 0 <= q < front.len() implies !pred(#[trigger] front[q]) by {
                assert(front[q] == rest[q]);
            }
            front.lemma_all_neg_filter_empty(pred);
            assert(front.filter(pred) =~= Seq::<Message>::empty());
        }
    }
}

/// Orders messages newest first, keeping the order of messages created at the
/// same instant.
pub fn sort_newest_first(messages: Vec<Message>) -> (sorted: Vec<Message>)
    ensures
        sorted@ == sorted_newest_first(messages@),
{
    let ghost all = messages@;
    let mut rest = messages;
    let mut out: Vec<Message> = Vec::new();
    assert(all.skip(all.len() as int) =~= Seq::<Message>::empty());
    assert(all.take(all.len() as int) =~= all);
    while rest.len() > 0
        invariant
            rest@.len() <= all.len(),
            rest@ == all.take(rest@.len() as int),
            out@ == sorted_newest_first(all.skip(rest@.len() as int)),
            newest_first(out@),
        decreases rest@.len(),
    {
        let ghost j = rest@.len() as int;
        let m = match rest.pop() {
            Some(m) => m,
            None => return out,
        };
        assert(m == all[j - 1]);
        assert(rest@ =~= all.take(j - 1));
        let date = m.date_created;
        let mut p = out.len();
        while p > 0 && out[p - 1].date_created <= date
            invariant
                p <= out@.len(),
                forall|q: int| p <= q < out@.len() ==> out@[q].date_created <= date,
            decreases p,
        {
            p = p - 1;
        }
        proof {
            lemma_insertion_point_at(out@, date, p as int);
            lemma_insert_keeps_order(out@, m);
            let tail = all.skip(j - 1);
            assert(tail.drop_first() =~= all.skip(j));
            assert(tail[0] == m);
        }
        out.insert(p, m);
    }
    out
}

/// The page that starts `offset` items into `items` and holds at most `limit`
/// of them (empty where `offset` is past the end).
pub open spec fn page_of<T>(items: Seq<T>, offset: nat, limit: nat) -> Seq<T> {
    let start = if offset <= items.len() { offset } else { items.len() };
    let count = if limit <= items.len() - start { limit } else { (items.len() - start) as nat };
    items.subrange(start as int, (start + count) as int)
}

/// Keeps the items from `offset` on, at most `limit` of them.
pub fn page<T>(items: Vec<T>, offset: usize, limit: usize) -> (p: Vec<T>)
    ensures
        p@ == page_of(items@, offset as nat, limit as nat),
{
    let mut items = items;
    let start = if offset <= items.len() { offset } else { items.len() };
    let mut rest = items.split_off(start);
    let count = if limit <= rest.len() { limit } else { rest.len() };
    let _ = rest.split_off(count);
    rest
}

/// Two consecutive pages, the second starting where the first ends, together
/// make the page that spans both.
pub proof fn lemma_pages_concatenate<T>(items: Seq<T>, offset: nat, first: nat, second: nat)
    ensures
        page_of(items, offset, first) + page_of(items, offset + first, second) == page_of(
            items,
            offset,
            first + second,
        ),
{
    assert(page_of(items, offset, first) + page_of(items, offset + first, second) =~= page_of(
        items,
        offset,
        first + second,
    ));
}

/// The items from position `offset` on.
pub fn skip_items<T>(items: Vec<T>, offset: usize) -> (rest: Vec<T>)
    requires
        offset <= items@.len(),
    ensures
        rest@ == items@.skip(offset as int),
{
    let mut items = items;
    items.split_off(offset)
}

/// The messages of a chat as a page: newest first (messages created at the
/// same instant in the order given), then from `offset` on, at most `limit`.
pub fn arrange_messages(messages: Vec<Message>, offset: usize, limit: usize) -> (arranged: Vec<
    Message,
>)
    ensures
        arranged@ == page_of(sorted_newest_first(messages@), offset as nat, limit as nat),
{
    page(sort_newest_first(messages), offset, limit)
}

/// Every page of the arranged messages is itself newest first.
pub proof fn lemma_arranged_page_newest_first(messages: Seq<Message>, offset: nat, limit: nat)
    ensures
        newest_first(page_of(sorted_newest_first(messages), offset, limit)),
{
    let sorted = sorted_newest_first(messages);
    lemma_sorted_is_newest_first(messages);
    let p = page_of(sorted, offset, limit);
    let start = if offset <= sorted.len() { offset } else { sorted.len() };
    assert forall|i: int, j: int| 0 <= i < j < p.len() implies p[i].date_created
        >= p[j].date_created by {
        assert(p[i] == sorted[start + i] && p[j] == sorted[start + j]);
    }
}

/// A page holds `min(limit, len - min(offset, len))` items, and its `k`-th
/// item is the item `min(offset, len) + k` of the whole list.
pub proof fn lemma_page_contents<T>(items: Seq<T>, offset: nat, limit: nat)
    ensures
        ({
            let start: int = if offset <= items.len() { offset as int } else { items.len() as int };
            let rest: int = items.len() - start;
            &&& page_of(items, offset, limit).len() == (if limit <= rest { limit as int } else { rest })
            &&& forall|k: int|
                0 <= k < page_of(items, offset, limit).len() ==> #[trigger] page_of(
                    items,
                    offset,
                    limit,
                )[k] == items[start + k]
        }),
{
}

/// Ordering does not change how many messages there are.
pub proof fn lemma_sorted_len(s: Seq<Message>)
    ensures
        sorted_newest_first(s).len() == s.len(),
    decreases s.len(),
{
    if s.len() > 0 {
        lemma_sorted_len(s.drop_first());
        lemma_insertion_point_bounds(sorted_newest_first(s.drop_first()), s[0].date_created);
    }
}

/// A first page at least as long as the chat holds every message of the chat,
/// each exactly as often as the chat does.
pub proof fn lemma_first_page_keeps_all(messages: Seq<Message>, limit: nat)
    requires
        limit >= messages.len(),
    ensures
        page_of(sorted_newest_first(messages), 0, limit).len() == messages.len(),
        page_of(sorted_newest_first(messages), 0, limit).to_multiset() == messages.to_multiset(),
{
    lemma_sorted_len(messages);
    lemma_sorted_is_permutation(messages);
    let sorted = sorted_newest_first(messages);
    assert(page_of(sorted, 0, limit) =~= sorted);
}

} // verus!
