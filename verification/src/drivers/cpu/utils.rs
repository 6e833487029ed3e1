//! The list of online CPUs and the settings written to each of them.

use crate::error::{agrees, Error};
use crate::sysfs::{Node, PolicyProperty, read_number, Setting, Snapshot, Store, Write};
use crate::text::{
    all_whitespace, chars_of, decimal, find, first_index, is_digit, lemma_decimal_denotes,
    lemma_first_index, lemma_first_index_is, lemma_parse_decimal, lemma_trim_padded, parse_number,
    parse_u32, trim, trim_bounds,
};
use super::types::{EnergyPreference, ScalingGovernor};
use vstd::prelude::*;

verus! {

/// The CPU ids from `first` to `last`, both included, in rising order; none
/// where `first` is the greater.
pub open spec fn range_ids(first: u32, last: u32) -> Seq<u32> {
    Seq::new(
        if first <= last {
            (last - first + 1) as nat
        } else {
            0
        },
        |i: int| (first + i) as u32,
    )
}

/// The bounds that one token of a CPU list denotes: `a-b` denotes `a` to `b`,
/// a single number denotes itself, anything else denotes nothing.
pub open spec fn token_range(token: Seq<char>) -> Option<(u32, u32)> {
    match first_index(token, '-') {
        Some(i) => match (parse_u32(token.take(i)), parse_u32(token.skip(i + 1))) {
            (Some(first), Some(last)) => Some((first, last)),
            _ => None,
        },
        None => match parse_u32(token) {
            Some(id) => Some((id, id)),
            None => None,
        },
    }
}

/// The CPU ids that one token of a CPU list denotes.
pub open spec fn token_ids(token: Seq<char>) -> Seq<u32> {
    match token_range(token) {
        Some((first, last)) => range_ids(first, last),
        None => Seq::empty(),
    }
}

/// The CPU ids that a comma-separated list of tokens denotes, token by token:
/// an id stands as often as the tokens denote it.
#[verifier::opaque]
pub open spec fn list_ids(list: Seq<char>) -> Seq<u32>
    decreases list.len(),
{
    match first_index(list, ',') {
        // The first comma lies in the list: said here for the recursion's sake.
        Some(i) => if 0 <= i < list.len() {
            token_ids(list.take(i)) + list_ids(list.skip(i + 1))
        } else {
            Seq::empty()
        },
        None => token_ids(list),
    }
}

/// `seen`, then the ids of `more` that are new, each where it stands first.
pub open spec fn with_new(seen: Seq<u32>, more: Seq<u32>) -> Seq<u32>
    decreases more.len(),
{
    if more.len() == 0 {
        seen
    } else {
        let before = with_new(seen, more.drop_last());
        if before.contains(more.last()) {
            before
        } else {
            before.push(more.last())
        }
    }
}

/// The ids of `ids`, each once, in the order in which they stand first.
pub open spec fn distinct(ids: Seq<u32>) -> Seq<u32> {
    with_new(Seq::empty(), ids)
}

/// The CPU ids that the tokens of the kernel's list of online CPUs denote,
/// token by token.
pub open spec fn listed_ids(raw: Seq<char>) -> Seq<u32> {
    list_ids(trim(raw))
}

/// The set of online CPUs that the kernel's list denotes: each id that a
/// token denotes, once, in the order in which the list names them first.
pub open spec fn online_cpu_ids(raw: Seq<char>) -> Seq<u32> {
    distinct(listed_ids(raw))
}

/// Adding new ids keeps the ids apart, and adds exactly the ids of `more`.
pub proof fn lemma_with_new(seen: Seq<u32>, more: Seq<u32>)
    requires
        seen.no_duplicates(),
    ensures
        with_new(seen, more).no_duplicates(),
        forall|id: u32|
            #[trigger] with_new(seen, more).contains(id) <==> seen.contains(id) || more.contains(id),
    decreases more.len(),
{
    if more.len() > 0 {
        let front = more.drop_last();
        let last = more.last();
        let before = with_new(seen, front);
        lemma_with_new(seen, front);
        assert forall|id: u32| #[trigger]
            with_new(seen, more).contains(id) <==> seen.contains(id) || more.contains(id) by {
            lemma_contains_last(more, id);
            if !before.contains(last) {
                lemma_contains_last(before.push(last), id);
                assert(before.push(last).drop_last() =~= before);
            }
        }
    }
}

/// An id stands in a sequence where it stands last or before the last.
proof fn lemma_contains_last(ids: Seq<u32>, id: u32)
    requires
        ids.len() > 0,
    ensures
        ids.contains(id) <==> ids.drop_last().contains(id) || ids.last() == id,
{
    let front = ids.drop_last();
    if ids.contains(id) {
        let i = choose|i: int| 0 <= i < ids.len() && ids[i] == id;
        if i < ids.len() - 1 {
            assert(front[i] == id);
        }
    }
    if front.contains(id) {
        let i = choose|i: int| 0 <= i < front.len() && front[i] == id;
        assert(ids[i] == id);
    }
    if ids.last() == id {
        assert(ids[ids.len() - 1] == id);
    }
}

/// New ids may be added all at once or part by part.
pub proof fn lemma_with_new_twice(seen: Seq<u32>, first: Seq<u32>, second: Seq<u32>)
    ensures
        with_new(with_new(seen, first), second) == with_new(seen, first + second),
    decreases second.len(),
{
    if second.len() == 0 {
        assert(first + second =~= first);
    } else {
        lemma_with_new_twice(seen, first, second.drop_last());
        assert((first + second).drop_last() =~= first + second.drop_last());
        assert((first + second).last() == second.last());
    }
}

/// The set of online CPUs holds no id twice, and holds exactly the ids that
/// the tokens of the list denote.
pub proof fn lemma_online_cpu_ids(raw: Seq<char>)
    ensures
        online_cpu_ids(raw).no_duplicates(),
        forall|id: u32| #[trigger]
            online_cpu_ids(raw).contains(id) <==> listed_ids(raw).contains(id),
{
    lemma_with_new(Seq::empty(), listed_ids(raw));
}

/// How `list_ids` reads a list: its first token, then the rest.
proof fn lemma_list_ids_unfold(list: Seq<char>)
    ensures
        match first_index(list, ',') {
            Some(i) => 0 <= i < list.len() && list_ids(list) == token_ids(list.take(i)) + list_ids(
                list.skip(i + 1),
            ),
            None => list_ids(list) == token_ids(list),
        },
{
    reveal(list_ids);
    lemma_first_index(list, ',');
}

fn token_bounds(chars: &Vec<char>, from: usize, to: usize) -> (range: Option<(u32, u32)>)
    requires
        from <= to <= chars.len(),
    ensures
        range == token_range(chars@.subrange(from as int, to as int)),
{
    let ghost token = chars@.subrange(from as int, to as int);
    match find(chars, from, to, '-') {
        Some(dash) => {
            assert(token.take(dash - from) =~= chars@.subrange(from as int, dash as int));
            assert(token.skip(dash - from + 1) =~= chars@.subrange(dash + 1, to as int));
            let first = parse_number(chars, from, dash);
            let last = parse_number(chars, dash + 1, to);
            match (first, last) {
                (Some(first), Some(last)) => Some((first, last)),
                _ => None,
            }
        },
        None => match parse_number(chars, from, to) {
            Some(id) => Some((id, id)),
            None => None,
        },
    }
}

fn holds_id(ids: &Vec<u32>, id: u32) -> (found: bool)
    ensures
        found == ids@.contains(id),
{
    let mut i: usize = 0;
    while i < ids.len()
        invariant
            i <= ids.len(),
            forall|k: int| 0 <= k < i ==> ids@[k] != id,
        decreases ids.len() - i,
    {
        if ids[i] == id {
            return true;
        }
        i += 1;
    }
    false
}

fn push_range(ids: &mut Vec<u32>, first: u32, last: u32)
    ensures
        final(ids)@ == with_new(old(ids)@, range_ids(first, last)),
{
    let ghost range = range_ids(first, last);
    if first > last {
        return ;
    }
    let mut next: u64 = first as u64;
    assert(range.take(0) =~= Seq::<u32>::empty());
    while next <= last as u64
        invariant
            first <= next <= last + 1,
            first <= last + 1,
            range == range_ids(first, last),
            ids@ == with_new(old(ids)@, range.take(next - first)),
        decreases last + 1 - next,
    {
        let ghost upto = range.take(next + 1 - first);
        assert(upto.drop_last() =~= range.take(next - first));
        assert(upto.last() == next);
        if !holds_id(ids, next as u32) {
            ids.push(next as u32);
        }
        next += 1;
    }
    assert(range.take(next - first) =~= range);
}

fn push_token(ids: &mut Vec<u32>, chars: &Vec<char>, from: usize, to: usize)
    requires
        from <= to <= chars.len(),
    ensures
        final(ids)@ == with_new(old(ids)@, token_ids(chars@.subrange(from as int, to as int))),
{
    match token_bounds(chars, from, to) {
        Some((first, last)) => {
            push_range(ids, first, last);
        },
        None => {},
    }
}

/// One step of reading a list: the ids read so far, then the token that ends
/// at the first comma, leave the rest of the list to be read.
proof fn lemma_list_ids_step(
    chars: Seq<char>,
    from: int,
    to: int,
    end: int,
    before: Seq<u32>,
    total: Seq<u32>,
)
    requires
        0 <= from <= to <= end <= chars.len(),
        before + list_ids(chars.subrange(from, end)) == total,
        to < end ==> first_index(chars.subrange(from, end), ',') == Some(to - from),
        to == end ==> first_index(chars.subrange(from, end), ',') is None,
    ensures
        to < end ==> before + token_ids(chars.subrange(from, to)) + list_ids(
            chars.subrange(to + 1, end),
        ) == total,
        to == end ==> before + token_ids(chars.subrange(from, to)) == total,
{
    let rest = chars.subrange(from, end);
    let token = chars.subrange(from, to);
    lemma_list_ids_unfold(rest);
    if to < end {
        let after = chars.subrange(to + 1, end);
        assert(rest.take(to - from) =~= token);
        assert(rest.skip(to - from + 1) =~= after);
        assert((before + token_ids(token)) + list_ids(after) =~= before + (token_ids(token)
            + list_ids(after)));
    }
}

/// Parses the kernel's list of online CPUs, such as `0-3,5,8-9`, into the
/// set of ids it denotes: each id once, in the order in which the list names
/// them first. Ranges include both ends. A token that denotes nothing is
/// skipped.
pub fn online_cpu_id_iter(online_cpus: &str) -> (ids: Vec<u32>)
    ensures
        ids@ == online_cpu_ids(online_cpus@),
        ids@.no_duplicates(),
        forall|id: u32| #[trigger] ids@.contains(id) <==> listed_ids(online_cpus@).contains(id),
{
    let chars = chars_of(online_cpus);
    let (start, end) = trim_bounds(&chars);
    let ghost total = list_ids(chars@.subrange(start as int, end as int));
    let ghost mut read: Seq<u32> = Seq::empty();
    let mut ids: Vec<u32> = Vec::new();
    let mut from: usize = start;
    let mut done = false;
    assert(read + total =~= total);
    while !done
        invariant
            start <= from <= end <= chars.len(),
            ids@ == distinct(read),
            !done ==> read + list_ids(chars@.subrange(from as int, end as int)) == total,
            done ==> read == total,
        decreases
                if done {
                    0
                } else {
                    end - from + 1
                },
    {
        let comma = find(&chars, from, end, ',');
        let to: usize = match comma {
            Some(i) => i,
            None => end,
        };
        let ghost token = token_ids(chars@.subrange(from as int, to as int));
        push_token(&mut ids, &chars, from, to);
        proof {
            lemma_list_ids_step(chars@, from as int, to as int, end as int, read, total);
            lemma_with_new_twice(Seq::empty(), read, token);
            read = read + token;
        }
        match comma {
            Some(i) => {
                from = i + 1;
            },
            None => {
                done = true;
            },
        }
    }
    proof {
        lemma_online_cpu_ids(online_cpus@);
    }
    ids
}

/// One well-formed token of a CPU list.
pub enum ListItem {
    /// A single CPU id.
    Single(u32),
    /// The ids from the first to the second, both included.
    Range(u32, u32),
}

/// The text of one well-formed token.
pub open spec fn item_text(item: ListItem) -> Seq<char> {
    match item {
        ListItem::Single(id) => decimal(id as nat),
        ListItem::Range(first, last) => decimal(first as nat) + seq!['-'] + decimal(last as nat),
    }
}

/// The CPU ids that one well-formed token stands for.
pub open spec fn item_ids(item: ListItem) -> Seq<u32> {
    match item {
        ListItem::Single(id) => seq![id],
        ListItem::Range(first, last) => range_ids(first, last),
    }
}

/// The text of a list of well-formed tokens, joined by commas.
pub open spec fn items_text(items: Seq<ListItem>) -> Seq<char>
    decreases items.len(),
{
    if items.len() == 0 {
        Seq::empty()
    } else if items.len() == 1 {
        item_text(items[0])
    } else {
        items_text(items.drop_last()) + seq![','] + item_text(items.last())
    }
}

/// The CPU ids that a list of well-formed tokens stands for, in order.
pub open spec fn items_ids(items: Seq<ListItem>) -> Seq<u32>
    decreases items.len(),
{
    if items.len() == 0 {
        Seq::empty()
    } else {
        items_ids(items.drop_last()) + item_ids(items.last())
    }
}

/// The first comma of a list is the first comma of the list with more
/// behind it.
proof fn lemma_first_comma_stays(list: Seq<char>, more: Seq<char>)
    requires
        first_index(list, ',') is Some,
    ensures
        first_index(list + more, ',') == first_index(list, ','),
{
    lemma_first_index(list, ',');
    let i = first_index(list, ',')->0;
    let longer = list + more;
    assert(longer[i] == list[i]);
    assert forall|j: int| 0 <= j < i implies longer[j] != ',' by {
        assert(longer[j] == list[j]);
    }
    lemma_first_index_is(longer, ',', i);
}

/// Behind a list without a comma, a comma is the first.
proof fn lemma_first_comma_behind(list: Seq<char>, more: Seq<char>)
    requires
        first_index(list, ',') is None,
    ensures
        first_index(list + seq![','] + more, ',') == Some(list.len() as int),
{
    lemma_first_index(list, ',');
    let longer = list + seq![','] + more;
    assert(longer[list.len() as int] == ',');
    assert forall|j: int| 0 <= j < list.len() implies longer[j] != ',' by {
        assert(longer[j] == list[j]);
    }
    lemma_first_index_is(longer, ',', list.len() as int);
}

/// A list that goes on behind a comma reads as its first token, then the
/// rest with what goes on.
proof fn lemma_join_first_token(a: Seq<char>, b: Seq<char>)
    requires
        first_index(a, ',') is Some,
    ensures
        ({
            let i = first_index(a, ',')->0;
            &&& 0 <= i < a.len()
            &&& list_ids(a + seq![','] + b) == token_ids(a.take(i)) + list_ids(
                a.skip(i + 1) + seq![','] + b,
            )
        }),
{
    let i = first_index(a, ',')->0;
    let joined = a + seq![','] + b;
    lemma_first_index(a, ',');
    assert(joined =~= a + (seq![','] + b));
    lemma_first_comma_stays(a, seq![','] + b);
    lemma_list_ids_unfold(joined);
    assert(joined.take(i) =~= a.take(i));
    assert(joined.skip(i + 1) =~= a.skip(i + 1) + seq![','] + b);
}

/// A single token with a list behind a comma reads as the token, then the
/// list.
proof fn lemma_join_last_token(a: Seq<char>, b: Seq<char>)
    requires
        first_index(a, ',') is None,
    ensures
        list_ids(a + seq![','] + b) == token_ids(a) + list_ids(b),
{
    let joined = a + seq![','] + b;
    lemma_first_comma_behind(a, b);
    lemma_list_ids_unfold(joined);
    assert(joined.take(a.len() as int) =~= a);
    assert(joined.skip(a.len() as int + 1) =~= b);
}

/// A comma joins two lists: the ids of the whole are the ids of the first
/// part, then those of the second. So a token that denotes nothing adds
/// nothing and takes nothing away.
pub proof fn lemma_list_ids_join(a: Seq<char>, b: Seq<char>)
    ensures
        list_ids(a + seq![','] + b) == list_ids(a) + list_ids(b),
    decreases a.len(),
{
    lemma_list_ids_unfold(a);
    if first_index(a, ',') is Some {
        let i = first_index(a, ',')->0;
        let token = token_ids(a.take(i));
        let rest = a.skip(i + 1);
        lemma_join_first_token(a, b);
        lemma_list_ids_join(rest, b);
        assert(token + (list_ids(rest) + list_ids(b)) =~= (token + list_ids(rest)) + list_ids(b));
    } else {
        lemma_join_last_token(a, b);
    }
}

/// A range holds the ids from its first to its last, and no other.
pub proof fn lemma_range_ids_members(first: u32, last: u32, id: u32)
    ensures
        range_ids(first, last).contains(id) <==> first <= id <= last,
{
    let ids = range_ids(first, last);
    if first <= id <= last {
        assert(ids[id - first] == id);
    }
}

/// A token that denotes nothing is dropped: the list reads as it does
/// without the token.
pub proof fn lemma_malformed_token_dropped(before: Seq<char>, token: Seq<char>, after: Seq<char>)
    requires
        first_index(token, ',') is None,
        token_range(token) is None,
    ensures
        list_ids(before + seq![','] + token + seq![','] + after) == list_ids(
            before + seq![','] + after,
        ),
        list_ids(before + seq![','] + token) == list_ids(before),
        list_ids(token + seq![','] + after) == list_ids(after),
{
    lemma_list_ids_unfold(token);
    assert(list_ids(token) =~= Seq::<u32>::empty());
    lemma_list_ids_join(before, token);
    lemma_list_ids_join(token, after);
    lemma_list_ids_join(before, after);
    lemma_list_ids_join(before, token + seq![','] + after);
    assert(before + seq![','] + token + seq![','] + after =~= before + seq![','] + (token
        + seq![','] + after));
    assert(list_ids(before) + Seq::<u32>::empty() =~= list_ids(before));
    assert(Seq::<u32>::empty() + list_ids(after) =~= list_ids(after));
}

/// A well-formed token denotes the ids it stands for, and holds no comma.
pub proof fn lemma_item_ids(item: ListItem)
    ensures
        token_ids(item_text(item)) == item_ids(item),
        first_index(item_text(item), ',') is None,
        item_text(item).len() > 0,
        is_digit(item_text(item)[0]),
        is_digit(item_text(item).last()),
{
    let text = item_text(item);
    lemma_first_index(text, ',');
    lemma_first_index(text, '-');
    match item {
        ListItem::Single(id) => {
            lemma_decimal_denotes(id as nat);
            lemma_parse_decimal(id);
            assert(range_ids(id, id) =~= seq![id]);
        },
        ListItem::Range(first, last) => {
            let head = decimal(first as nat);
            let tail = decimal(last as nat);
            lemma_decimal_denotes(first as nat);
            lemma_decimal_denotes(last as nat);
            lemma_parse_decimal(first);
            lemma_parse_decimal(last);
            assert(text[head.len() as int] == '-');
            assert forall|j: int| 0 <= j < head.len() implies text[j] != '-' by {
                assert(text[j] == head[j]);
            }
            lemma_first_index_is(text, '-', head.len() as int);
            assert(text.take(head.len() as int) =~= head);
            assert(text.skip(head.len() as int + 1) =~= tail);
            assert forall|j: int| 0 <= j < text.len() implies text[j] != ',' by {
                if j < head.len() {
                    assert(text[j] == head[j]);
                } else if j > head.len() {
                    assert(text[j] == tail[j - head.len() - 1]);
                }
            }
            assert(text[0] == head[0]);
            assert(text.last() == tail.last());
        },
    }
}

/// Every well-formed list denotes exactly the ids that its tokens stand for,
/// each once, in the order in which the list names them first: `0-3,5,8-9`
/// denotes 0, 1, 2, 3, 5, 8, 9, and so does `0-3,2,5,8-9`.
/// Whitespace around the list, such as the newline that ends the kernel's
/// file, changes nothing.
pub proof fn lemma_online_cpu_ids_of_items(
    before: Seq<char>,
    items: Seq<ListItem>,
    after: Seq<char>,
)
    requires
        items.len() > 0,
        all_whitespace(before),
        all_whitespace(after),
    ensures
        listed_ids(before + items_text(items) + after) == items_ids(items),
        online_cpu_ids(before + items_text(items) + after) == distinct(items_ids(items)),
        online_cpu_ids(before + items_text(items) + after).no_duplicates(),
        forall|id: u32| #[trigger]
            online_cpu_ids(before + items_text(items) + after).contains(id) <==> items_ids(
                items,
            ).contains(id),
{
    lemma_online_cpu_ids(before + items_text(items) + after);
    lemma_items_text(items);
    lemma_trim_padded(before, items_text(items), after);
}

proof fn lemma_items_text(items: Seq<ListItem>)
    requires
        items.len() > 0,
    ensures
        list_ids(items_text(items)) == items_ids(items),
        items_text(items).len() > 0,
        is_digit(items_text(items)[0]),
        is_digit(items_text(items).last()),
    decreases items.len(),
{
    let last = items.last();
    lemma_item_ids(last);
    lemma_list_ids_unfold(item_text(last));
    if items.len() == 1 {
        assert(items.drop_last() =~= Seq::<ListItem>::empty());
        assert(items_ids(items.drop_last()) =~= Seq::<u32>::empty());
        assert(items_ids(items) =~= item_ids(last));
    } else {
        let front = items.drop_last();
        lemma_items_text(front);
        lemma_list_ids_join(items_text(front), item_text(last));
        let text = items_text(items);
        assert(text[0] == items_text(front)[0]);
        assert(text.last() == item_text(last).last());
    }
}

/// The frequency limit, in kHz, that stands for no limit: the kernel lowers
/// it to the highest frequency the hardware has.
pub const MAX_RESET_FREQUENCY: u32 = 100000000;

/// The file that holds the frequency limit of the first policy.
pub open spec fn maximum_frequency_node() -> Node {
    Node::Policy { cpu_id: 0, property: PolicyProperty::ScalingMaxFreq }
}

/// The CPU ids that the store's list of online CPUs denotes; a failure of
/// I/O where the list could not be read.
pub open spec fn online_ids(store: Store) -> Result<Seq<u32>, Error> {
    if store.contains_key(Node::OnlineCpus) {
        Ok(online_cpu_ids(store[Node::OnlineCpus]))
    } else {
        Err(Error::Io(Node::OnlineCpus))
    }
}

/// One write of `value` to the file `property` of each of the CPUs `ids`.
pub open spec fn writes_to_each(ids: Seq<u32>, property: PolicyProperty, value: Setting) -> Seq<
    Write,
> {
    Seq::new(
        ids.len(),
        |i: int| Write { node: Node::Policy { cpu_id: ids[i], property: property }, value: value },
    )
}

/// The frequency limit to write for a profile's setting.
pub open spec fn frequency_to_write(maximum_frequency: Option<u32>) -> u32 {
    match maximum_frequency {
        Some(khz) => khz,
        None => MAX_RESET_FREQUENCY,
    }
}

/// The writes that `online_ids` and `writes_to_each` give for a store.
pub open spec fn writes_to_online(store: Store, property: PolicyProperty, value: Setting) -> Result<
    Seq<Write>,
    Error,
> {
    match online_ids(store) {
        Ok(ids) => Ok(writes_to_each(ids, property, value)),
        Err(error) => Err(error),
    }
}

/// A setting is written to each online CPU once: no two of the writes go to
/// one file.
pub proof fn lemma_each_cpu_written_once(store: Store, property: PolicyProperty, value: Setting)
    ensures
        match writes_to_online(store, property, value) {
            Ok(writes) => forall|i: int, j: int|
                0 <= i < j < writes.len() ==> (#[trigger] writes[i]).node != (
                #[trigger] writes[j]).node,
            Err(_) => true,
        },
{
    if store.contains_key(Node::OnlineCpus) {
        lemma_online_cpu_ids(store[Node::OnlineCpus]);
    }
}

/// The text of the list of online CPUs, as it was read.
pub fn online_cpus(snapshot: &Snapshot) -> (list: Result<&String, Error>)
    ensures
        match list {
            Ok(text) => snapshot@.contains_key(Node::OnlineCpus) && snapshot@[Node::OnlineCpus]
                == text@,
            Err(error) => !snapshot@.contains_key(Node::OnlineCpus) && error == Error::Io(
                Node::OnlineCpus,
            ),
        },
{
    match snapshot.content(Node::OnlineCpus) {
        Some(text) => Ok(text),
        None => Err(Error::Io(Node::OnlineCpus)),
    }
}

fn write_to_online(snapshot: &Snapshot, property: PolicyProperty, value: Setting) -> (writes:
    Result<Vec<Write>, Error>)
    ensures
        agrees(writes, writes_to_online(snapshot@, property, value)),
{
    let ids = match online_cpus(snapshot) {
        Ok(list) => online_cpu_id_iter(list.as_str()),
        Err(error) => {
            return Err(error);
        },
    };
    let ghost expected = writes_to_each(ids@, property, value);
    let mut writes: Vec<Write> = Vec::new();
    let mut i: usize = 0;
    while i < ids.len()
        invariant
            i <= ids.len(),
            expected == writes_to_each(ids@, property, value),
            writes@ == expected.take(i as int),
        decreases ids.len() - i,
    {
        writes.push(Write { node: Node::Policy { cpu_id: ids[i], property: property }, value: value });
        assert(writes@ =~= expected.take(i + 1));
        i += 1;
    }
    assert(writes@ =~= expected);
    Ok(writes)
}

/// The writes that set the energy preference of every online CPU, in the
/// order of the list of online CPUs. Fails where the list could not be read.
pub fn activate_energy_preference(
    energy_preference: EnergyPreference,
    snapshot: &Snapshot,
) -> (writes: Result<Vec<Write>, Error>)
    ensures
        agrees(
            writes,
            writes_to_online(
                snapshot@,
                PolicyProperty::EnergyPerformancePreference,
                Setting::EnergyPreference(energy_preference),
            ),
        ),
{
    write_to_online(
        snapshot,
        PolicyProperty::EnergyPerformancePreference,
        Setting::EnergyPreference(energy_preference),
    )
}

/// The writes that set the frequency limit of every online CPU, in the order
/// of the list of online CPUs. A profile without a limit resets it: the
/// value written is `MAX_RESET_FREQUENCY`. Fails where the list could not be
/// read.
pub fn activate_maximum_frequency(maximum_frequency: Option<u32>, snapshot: &Snapshot) -> (writes:
    Result<Vec<Write>, Error>)
    ensures
        agrees(
            writes,
            writes_to_online(
                snapshot@,
                PolicyProperty::ScalingMaxFreq,
                Setting::Frequency(frequency_to_write(maximum_frequency)),
            ),
        ),
{
    let value = match maximum_frequency {
        Some(value) => value,
        None => MAX_RESET_FREQUENCY,
    };
    write_to_online(snapshot, PolicyProperty::ScalingMaxFreq, Setting::Frequency(value))
}

/// The writes that set the scaling governor of every online CPU, in the
/// order of the list of online CPUs. Fails where the list could not be read.
pub fn activate_scaling_governor(scaling_governor: ScalingGovernor, snapshot: &Snapshot) -> (writes:
    Result<Vec<Write>, Error>)
    ensures
        agrees(
            writes,
            writes_to_online(
                snapshot@,
                PolicyProperty::ScalingGovernor,
                Setting::Governor(scaling_governor),
            ),
        ),
{
    write_to_online(snapshot, PolicyProperty::ScalingGovernor, Setting::Governor(scaling_governor))
}

/// The frequency limit of the first policy, in kHz.
pub fn maximum_frequency(snapshot: &Snapshot) -> (khz: Result<u32, Error>)
    ensures
        khz == read_number(snapshot@, maximum_frequency_node()),
{
    snapshot.read_number(Node::Policy { cpu_id: 0, property: PolicyProperty::ScalingMaxFreq })
}

} // verus!
