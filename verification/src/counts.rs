use vstd::prelude::*;
use vstd::hash_map::StringHashMap;
use crate::text::text_equals;

verus! {

/// How many chats there are, in all and by messaging service.
pub struct ChatCounts {
    pub total: usize,
    pub breakdown: StringHashMap<usize>,
}

/// How many of `services` are named `name`.
pub open spec fn count_named(services: Seq<String>, name: Seq<char>) -> nat
    decreases services.len(),
{
    if services.len() == 0 {
        0
    } else {
        count_named(services.drop_last(), name) + if services.last()@ == name {
            1nat
        } else {
            0nat
        }
    }
}

/// The services that the breakdown reports on.
pub open spec fn imessage_name() -> Seq<char> {
    "iMessage"@
}

/// See [`imessage_name`].
pub open spec fn sms_name() -> Seq<char> {
    "SMS"@
}

proof fn lemma_count_named_le(services: Seq<String>, name: Seq<char>)
    ensures
        count_named(services, name) <= services.len(),
    decreases services.len(),
{
    if services.len() > 0 {
        lemma_count_named_le(services.drop_last(), name);
    }
}

/// Counts the entries of `services` named `name`.
fn count_service(services: &Vec<String>, name: &str) -> (n: usize)
    ensures
        n == count_named(services@, name@),
{
    let mut n: usize = 0;
    let mut i: usize = 0;
    assert(services@.take(0) =~= Seq::<String>::empty());
    while i < services.len()
        invariant
            i <= services@.len(),
            n == count_named(services@.take(i as int), name@),
        decreases services@.len() - i,
    {
        proof {
            assert(services@.take(i + 1).drop_last() =~= services@.take(i as int));
            lemma_count_named_le(services@.take(i as int), name@);
        }
        if text_equals(services[i].as_str(), name) {
            n = n + 1;
        }
        i = i + 1;
    }
    assert(services@.take(i as int) =~= services@);
    n
}

impl ChatCounts {
    /// Counts chats from the service name of each: the total, and in the
    /// breakdown the number of `iMessage` chats and of `SMS` chats.
    pub fn from_services(services: &Vec<String>) -> (counts: ChatCounts)
        ensures
            counts.total == services@.len(),
            counts.breakdown@ == Map::<Seq<char>, usize>::empty().insert(
                imessage_name(),
                count_named(services@, imessage_name()) as usize,
            ).insert(sms_name(), count_named(services@, sms_name()) as usize),
    {
        let imessage = count_service(services, "iMessage");
        let sms = count_service(services, "SMS");
        let mut breakdown = StringHashMap::new();
        breakdown.insert(String::from_str("iMessage"), imessage);
        breakdown.insert(String::from_str("SMS"), sms);
        ChatCounts { total: services.len(), breakdown }
    }

    /// The number of chats in all.
    pub fn total(&self) -> (n: usize)
        ensures
            n == self.total,
    {
        self.total
    }

    /// The number of chats on the service `name`, where the breakdown has it.
    pub fn service_count(&self, name: &str) -> (n: Option<usize>)
        ensures
            n == (if self.breakdown@.contains_key(name@) {
                Some(self.breakdown@[name@])
            } else {
                None
            }),
    {
        match self.breakdown.get(name) {
            Some(n) => Some(*n),
            None => None,
        }
    }
}

/// The chats counted for `iMessage` and for `SMS` are never more than all
/// the chats together.
pub proof fn lemma_breakdown_within_total(services: Seq<String>)
    ensures
        count_named(services, imessage_name()) + count_named(services, sms_name())
            <= services.len(),
    decreases services.len(),
{
    reveal_strlit("iMessage");
    reveal_strlit("SMS");
    assert(imessage_name() != sms_name()) by {
        assert(imessage_name().len() != sms_name().len());
    }
    if services.len() > 0 {
        lemma_breakdown_within_total(services.drop_last());
    }
}

/// Adding one chat adds one to the count of its own service and leaves the
/// count of every other service as it was.
pub proof fn lemma_count_named_push(services: Seq<String>, chat: String, name: Seq<char>)
    ensures
        count_named(services.push(chat), name) == count_named(services, name) + (if chat@ == name {
            1int
        } else {
            0int
        }),
{
    assert(services.push(chat).drop_last() =~= services);
}

/// Selects the chats on the service `name`.
pub open spec fn on_service(name: Seq<char>) -> spec_fn(String) -> bool {
    |x: String| x@ == name
}

/// A service's count is the number of chats whose service has that name.
pub proof fn lemma_count_named_is_filter_len(services: Seq<String>, name: Seq<char>)
    ensures
        count_named(services, name) == services.filter(on_service(name)).len(),
    decreases services.len(),
{
    if services.len() > 0 {
        lemma_count_named_is_filter_len(services.drop_last(), name);
        services.drop_last().lemma_filter_push(services.last(), on_service(name));
        assert(services.drop_last().push(services.last()) =~= services);
    }
}

/// When every chat is an iMessage or an SMS chat, the two counts of the
/// breakdown add up to the total.
pub proof fn lemma_breakdown_complete(services: Seq<String>)
    requires
        forall|i: int|
            0 <= i < services.len() ==> #[trigger] services[i]@ == imessage_name() || services[i]@
                == sms_name(),
    ensures
        count_named(services, imessage_name()) + count_named(services, sms_name())
            == services.len(),
    decreases services.len(),
{
    reveal_strlit("iMessage");
    reveal_strlit("SMS");
    assert(imessage_name() != sms_name()) by {
        assert(imessage_name().len() != sms_name().len());
    }
    if services.len() > 0 {
        let rest = services.drop_last();
        assert forall|i: int| 0 <= i < rest.len() implies #[trigger] rest[i]@ == imessage_name()
            || rest[i]@ == sms_name() by {
            assert(rest[i] == services[i]);
        }
        lemma_breakdown_complete(rest);
        assert(services.last() == services[services.len() - 1]);
    }
}

} // verus!
