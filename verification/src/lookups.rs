use vstd::prelude::*;

verus! {

/// The values that are present in `items`, in order.
pub open spec fn present_items<T>(items: Seq<Option<T>>) -> Seq<T>
    decreases items.len(),
{
    if items.len() == 0 {
        Seq::empty()
    } else {
        present_items(items.drop_last()) + match items.last() {
            Some(x) => seq![x],
            None => Seq::empty(),
        }
    }
}

/// Keeps the values that were found, in order, and drops the lookups that
/// found nothing.
pub fn present<T>(items: Vec<Option<T>>) -> (found: Vec<T>)
    ensures
        found@ == present_items(items@),
{
    let ghost all = items@;
    let mut out: Vec<T> = Vec::new();
    assert(all.take(0) =~= Seq::<Option<T>>::empty());
    for item in it: items.into_iter()
        invariant
            it.seq() == all,
            out@ == present_items(all.take(it.index() as int)),
    {
        assert(all.take(it.index() + 1).drop_last() =~= all.take(it.index() as int));
        match item {
            Some(x) => out.push(x),
            None => {},
        }
    }
    assert(all.take(all.len() as int) =~= all);
    out
}

/// For each row of the chat–handle join table (its `chat_id`, where it could
/// be read) that belongs to the chat `chat_row_id`, the row id that is looked
/// up in the handle table: the chat's own row id.
pub open spec fn participant_lookups_of(join_chat_ids: Seq<Option<u32>>, chat_row_id: u32) -> Seq<
    u32,
>
    decreases join_chat_ids.len(),
{
    if join_chat_ids.len() == 0 {
        Seq::empty()
    } else {
        participant_lookups_of(join_chat_ids.drop_last(), chat_row_id) + if join_chat_ids.last()
            == Some(chat_row_id) {
            seq![chat_row_id]
        } else {
            Seq::empty()
        }
    }
}

/// The handle row ids to look up for the participants of the chat
/// `chat_row_id`, given the `chat_id` column of each join row (`None` where
/// it could not be read).
pub fn participant_lookups(join_chat_ids: &Vec<Option<u32>>, chat_row_id: u32) -> (ids: Vec<u32>)
    ensures
        ids@ == participant_lookups_of(join_chat_ids@, chat_row_id),
{
    let mut ids: Vec<u32> = Vec::new();
    let mut i: usize = 0;
    assert(join_chat_ids@.take(0) =~= Seq::<Option<u32>>::empty());
    while i < join_chat_ids.len()
        invariant
            i <= join_chat_ids@.len(),
            ids@ == participant_lookups_of(join_chat_ids@.take(i as int), chat_row_id),
        decreases join_chat_ids@.len() - i,
    {
        assert(join_chat_ids@.take(i + 1).drop_last() =~= join_chat_ids@.take(i as int));
        match join_chat_ids[i] {
            Some(id) => {
                if id == chat_row_id {
                    ids.push(id);
                }
            },
            None => {},
        }
        i = i + 1;
    }
    assert(join_chat_ids@.take(i as int) =~= join_chat_ids@);
    ids
}

/// The found values are exactly the values inside the `Some` entries, in
/// order.
pub proof fn lemma_present_is_filter_map<T>(items: Seq<Option<T>>)
    ensures
        present_items(items) == items.filter_map(|x: Option<T>| x),
    decreases items.len(),
{
    if items.len() > 0 {
        lemma_present_is_filter_map(items.drop_last());
    }
}

/// Selects the join rows of the chat `chat_row_id`.
pub open spec fn of_chat(chat_row_id: u32) -> spec_fn(Option<u32>) -> bool {
    |x: Option<u32>| x == Some(chat_row_id)
}

/// One lookup per join row of the chat, each for the chat's own row id.
pub proof fn lemma_lookups_per_matching_row(join_chat_ids: Seq<Option<u32>>, chat_row_id: u32)
    ensures
        participant_lookups_of(join_chat_ids, chat_row_id).len() == join_chat_ids.filter(
            of_chat(chat_row_id),
        ).len(),
        forall|k: int|
            0 <= k < participant_lookups_of(join_chat_ids, chat_row_id).len()
                ==> #[trigger] participant_lookups_of(join_chat_ids, chat_row_id)[k] == chat_row_id,
    decreases join_chat_ids.len(),
{
    if join_chat_ids.len() > 0 {
        let rest = join_chat_ids.drop_last();
        lemma_lookups_per_matching_row(rest, chat_row_id);
        let prev = participant_lookups_of(rest, chat_row_id);
        let cur = participant_lookups_of(join_chat_ids, chat_row_id);
        rest.lemma_filter_push(join_chat_ids.last(), of_chat(chat_row_id));
        assert(rest.push(join_chat_ids.last()) =~= join_chat_ids);
        assert forall|k: int| 0 <= k < cur.len() implies #[trigger] cur[k] == chat_row_id by {
            if k < prev.len() {
                assert(cur[k] == prev[k]);
            }
        }
    }
}

} // verus!
