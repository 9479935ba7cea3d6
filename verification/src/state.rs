use crate::err::Error;
use crate::numeral::{decimal, is_digit, lemma_decimal_digits, lemma_decimal_injective};
use std::collections::VecDeque;
use vstd::prelude::*;
use vstd::utf8::encode_utf8;

verus! {

/// What was found where the queue is kept.
#[derive(Debug)]
pub enum Stored {
    /// The text that is kept there.
    Text(String),
    /// Nothing is kept there.
    Missing,
    /// Something is kept there and could not be read.
    Unreadable,
}

/// The numerals of `ids` in order, with a comma between any two.
pub open spec fn listed(ids: Seq<u32>) -> Seq<char>
    decreases ids.len(),
{
    if ids.len() == 0 {
        Seq::empty()
    } else if ids.len() == 1 {
        decimal(ids[0] as nat)
    } else {
        listed(ids.drop_last()) + seq![','] + decimal(ids.last() as nat)
    }
}

/// The text that keeps `ids`: their list in square brackets, with no blank in it.
pub open spec fn json_array(ids: Seq<u32>) -> Seq<char> {
    seq!['['] + listed(ids) + seq![']']
}

/// What miniserde's decoder makes of a text that is asked to be a list of
/// identifiers: the list, or nothing where it refuses the text.
pub uninterp spec fn json_ids(text: Seq<char>) -> Option<Seq<u32>>;

/// The list that a text keeps: the one that is written so by [`json_array`] if
/// there is one, and otherwise what the decoder makes of the text.
pub open spec fn decoding(text: Seq<char>) -> Option<Seq<u32>> {
    if exists|ids: Seq<u32>| json_array(ids) == text {
        Some(choose|ids: Seq<u32>| json_array(ids) == text)
    } else {
        json_ids(text)
    }
}

/// The longest text, in bytes, that the decoder takes whatever it holds: it
/// counts the digits of a number that is too long for it in 32 bits.
pub const DECODE_LIMIT: usize = 0x7fff_ffff;

/// Whether a text can be handed to the decoder: one of at most
/// [`DECODE_LIMIT`] bytes, or one of any length that [`json_array`] writes,
/// in which no number is long.
pub open spec fn readable(text: Seq<char>) -> bool {
    ||| encode_utf8(text).len() <= DECODE_LIMIT
    ||| exists|ids: Seq<u32>| json_array(ids) == text
}

/// Encodes with miniserde's `json::to_string`, which writes a list of numbers
/// as their decimal numerals between square brackets, set apart by commas and
/// nothing else. This is read off its source and not proved.
#[verifier::external_body]
fn encode(ids: &Vec<u32>) -> (text: String)
    ensures
        text@ == json_array(ids@),
{
    miniserde::json::to_string(ids)
}

/// Decodes with miniserde's `json::from_str`. Taken from its source and not
/// proved: the outcome is a function of the text, and a text that is the
/// bracketed list of some numerals, as [`json_array`] writes it, is accepted
/// and gives those numbers. Its count of the digits of a number too long for
/// it could overflow, so a text beyond [`DECODE_LIMIT`] is kept from it
/// unless it is such a list, whose numbers have ten digits at most.
#[verifier::external_body]
fn decode(text: &str) -> (ids: Option<Vec<u32>>)
    requires
        readable(text@),
    ensures
        match ids {
            Some(ids) => json_ids(text@) == Some(ids@),
            None => json_ids(text@) is None,
        },
        forall|list: Seq<u32>| #[trigger] json_array(list) == text@ ==> ids is Some && ids->0@ == list,
{
    miniserde::json::from_str::<Vec<u32>>(text).ok()
}

/// The stash queue: the identifiers of the stashed windows, the one most
/// recently stashed or cycled to at the front.
///
/// A queue that the operations of this crate have built holds no identifier
/// twice. One made by [`State::from`] holds whatever it was given.
#[derive(Debug)]
pub struct State(VecDeque<u32>);

impl Clone for State {
    fn clone(&self) -> (copy: State)
        ensures
            copy@ == self@,
    {
        State(self.0.clone())
    }
}

impl View for State {
    type V = Seq<u32>;

    closed spec fn view(&self) -> Seq<u32> {
        self.0@
    }
}

impl std::ops::Deref for State {
    type Target = VecDeque<u32>;

    fn deref(&self) -> (queue: &VecDeque<u32>)
        ensures
            queue@ == self@,
    {
        &self.0
    }
}

impl std::ops::DerefMut for State {
    fn deref_mut(&mut self) -> (queue: &mut VecDeque<u32>)
        ensures
            queue@ == old(self)@,
            final(self)@ == final(queue)@,
    {
        &mut self.0
    }
}

impl Default for State {
    fn default() -> (state: State)
        ensures
            state@ == Seq::<u32>::empty(),
    {
        State(VecDeque::new())
    }
}

impl State {
    /// The queue that holds `ids` in their order, the first at the front.
    pub fn from(ids: Vec<u32>) -> (state: State)
        ensures
            state@ == ids@,
    {
        let mut queue: VecDeque<u32> = VecDeque::new();
        let mut i: usize = 0;
        while i < ids.len()
            invariant
                i <= ids@.len(),
                queue@ == ids@.take(i as int),
            decreases ids@.len() - i,
        {
            queue.push_back(ids[i]);
            i += 1;
        }
        State(queue)
    }

    /// The identifiers of the queue in their order, the front first.
    pub fn to_vec(&self) -> (ids: Vec<u32>)
        ensures
            ids@ == self@,
    {
        let mut ids: Vec<u32> = Vec::new();
        let mut i: usize = 0;
        while i < self.0.len()
            invariant
                i <= self@.len(),
                ids@ == self@.take(i as int),
            decreases self@.len() - i,
        {
            ids.push(self.0[i]);
            i += 1;
        }
        ids
    }

    /// The queue to go on with once a text was decoded: the list that it gave,
    /// or the empty queue where it gave none.
    pub fn from_decoded(decoded: Option<Vec<u32>>) -> (state: State)
        ensures
            state@ == match decoded {
                Some(ids) => ids@,
                None => Seq::<u32>::empty(),
            },
    {
        match decoded {
            Some(ids) => State::from(ids),
            None => State::default(),
        }
    }

    /// Makes the queue of what was found where it is kept. Where nothing is
    /// kept the queue is empty, and so it is where the text is no list of
    /// identifiers. What could not be read is an error.
    pub fn read(stored: Stored) -> (state: Result<State, Error>)
        requires
            stored matches Stored::Text(text) ==> readable(text@),
        ensures
            match stored {
                Stored::Text(text) => state matches Ok(state) && state@ == match decoding(text@) {
                    Some(ids) => ids,
                    None => Seq::<u32>::empty(),
                },
                Stored::Missing => state matches Ok(state) && state@ == Seq::<u32>::empty(),
                Stored::Unreadable => state matches Err(Error::StateRead),
            },
    {
        match stored {
            Stored::Text(text) => Ok(State::from_decoded(decode(text.as_str()))),
            Stored::Missing => Ok(State::default()),
            Stored::Unreadable => Err(Error::StateRead),
        }
    }

    /// The text to keep for the queue. Whatever the length of the queue, the
    /// text can be read again, and gives the queue back.
    pub fn save(&self) -> (text: String)
        ensures
            text@ == json_array(self@),
            readable(text@),
            decoding(text@) == Some(self@),
    {
        proof {
            lemma_round_trip(self@);
        }
        let ids = self.to_vec();
        encode(&ids)
    }

    /// The number of identifiers in the queue.
    pub fn len(&self) -> (len: usize)
        ensures
            len == self@.len(),
    {
        self.0.len()
    }

    /// Whether the queue holds no identifier.
    pub fn is_empty(&self) -> (empty: bool)
        ensures
            empty == (self@.len() == 0),
    {
        self.0.len() == 0
    }

    /// The identifier at the front, if there is one.
    pub fn front(&self) -> (id: Option<&u32>)
        ensures
            match id {
                Some(id) => self@.len() > 0 && *id == self@[0],
                None => self@.len() == 0,
            },
    {
        if self.0.len() == 0 {
            None
        } else {
            Some(&self.0[0])
        }
    }

    /// The identifier at the back, if there is one.
    pub fn back(&self) -> (id: Option<&u32>)
        ensures
            match id {
                Some(id) => self@.len() > 0 && *id == self@.last(),
                None => self@.len() == 0,
            },
    {
        let len = self.0.len();
        if len == 0 {
            None
        } else {
            Some(&self.0[len - 1])
        }
    }

    /// Puts an identifier in front of all others.
    pub fn push_front(&mut self, id: u32)
        ensures
            final(self)@ == seq![id] + old(self)@,
    {
        self.0.push_front(id);
    }

    /// Puts an identifier behind all others.
    pub fn push_back(&mut self, id: u32)
        ensures
            final(self)@ == old(self)@.push(id),
    {
        self.0.push_back(id);
    }

    /// Takes the identifier at the front out of the queue.
    pub fn pop_front(&mut self) -> (id: Option<u32>)
        ensures
            match id {
                Some(id) => {
                    &&& old(self)@.len() > 0
                    &&& id == old(self)@[0]
                    &&& final(self)@ == old(self)@.skip(1)
                },
                None => old(self)@.len() == 0 && final(self)@ == old(self)@,
            },
    {
        self.0.pop_front()
    }

    /// Takes the identifier at `index` out of the queue, if the queue is that long.
    pub fn remove(&mut self, index: usize) -> (id: Option<u32>)
        ensures
            match id {
                Some(id) => {
                    &&& index < old(self)@.len()
                    &&& id == old(self)@[index as int]
                    &&& final(self)@ == old(self)@.remove(index as int)
                },
                None => index >= old(self)@.len() && final(self)@ == old(self)@,
            },
    {
        self.0.remove(index)
    }

    /// The place of the first occurrence of `id` in the queue.
    pub fn position(&self, id: u32) -> (index: Option<usize>)
        ensures
            match index {
                Some(i) => self@.index_of_first(id) == Some(i as int),
                None => self@.index_of_first(id) is None,
            },
    {
        let mut i: usize = 0;
        while i < self.0.len()
            invariant
                i <= self@.len(),
                forall|j: int| 0 <= j < i ==> self@[j] != id,
            decreases self@.len() - i,
        {
            if self.0[i] == id {
                proof {
                    self@.index_of_first_ensures(id);
                }
                return Some(i);
            }
            i += 1;
        }
        proof {
            self@.index_of_first_ensures(id);
        }
        None
    }

    /// Whether `id` is in the queue.
    pub fn contains(&self, id: &u32) -> (found: bool)
        ensures
            found == self@.contains(*id),
    {
        proof {
            self@.index_of_first_ensures(*id);
        }
        self.position(*id).is_some()
    }
}

/// A text that ends in a comma and a run of digits does so in one way only.
proof fn lemma_last_comma(
    head: Seq<char>,
    digits: Seq<char>,
    other_head: Seq<char>,
    other_digits: Seq<char>,
)
    requires
        head + seq![','] + digits == other_head + seq![','] + other_digits,
        forall|i: int| 0 <= i < digits.len() ==> is_digit(#[trigger] digits[i]),
        forall|i: int| 0 <= i < other_digits.len() ==> is_digit(#[trigger] other_digits[i]),
    ensures
        head == other_head,
        digits == other_digits,
{
    let text = head + seq![','] + digits;
    let other = other_head + seq![','] + other_digits;
    assert(text.len() == other.len());
    assert(text[head.len() as int] == ',');
    assert(other[other_head.len() as int] == ',');
    if head.len() < other_head.len() {
        assert(text[other_head.len() as int] == digits[other_head.len() - head.len() - 1]);
    } else if other_head.len() < head.len() {
        assert(other[head.len() as int] == other_digits[head.len() - other_head.len() - 1]);
    }
    assert forall|i: int| 0 <= i < head.len() implies head[i] == other_head[i] by {
        assert(text[i] == head[i] && other[i] == other_head[i]);
    }
    assert forall|i: int| 0 <= i < digits.len() implies digits[i] == other_digits[i] by {
        assert(text[head.len() + 1 + i] == digits[i]);
        assert(other[head.len() + 1 + i] == other_digits[i]);
    }
}

/// The list of some identifiers is empty only where there are none, and holds
/// a comma only where there are two or more.
proof fn lemma_listed_commas(ids: Seq<u32>)
    ensures
        ids.len() > 0 ==> listed(ids).len() > 0,
        ids.len() == 1 ==> forall|i: int|
            0 <= i < listed(ids).len() ==> is_digit(#[trigger] listed(ids)[i]),
        ids.len() >= 2 ==> exists|i: int| 0 <= i < listed(ids).len() && listed(ids)[i] == ',',
{
    if ids.len() == 1 {
        lemma_decimal_digits(ids[0] as nat);
    } else if ids.len() >= 2 {
        lemma_decimal_digits(ids.last() as nat);
        let at = listed(ids.drop_last()).len() as int;
        assert(listed(ids)[at] == ',');
    }
}

/// Two sequences of identifiers with the same list are the same sequence.
pub proof fn lemma_listed_injective(a: Seq<u32>, b: Seq<u32>)
    requires
        listed(a) == listed(b),
    ensures
        a == b,
    decreases a.len(),
{
    lemma_listed_commas(a);
    lemma_listed_commas(b);
    if a.len() == 0 || b.len() == 0 {
        assert(a.len() == b.len());
    } else if a.len() == 1 || b.len() == 1 {
        assert(a.len() == b.len()) by {
            if a.len() >= 2 || b.len() >= 2 {
                let at = choose|i: int| 0 <= i < listed(a).len() && listed(a)[i] == ',';
                assert(is_digit(listed(a)[at]));
            }
        }
        lemma_decimal_injective(a[0] as nat, b[0] as nat);
    } else {
        lemma_decimal_digits(a.last() as nat);
        lemma_decimal_digits(b.last() as nat);
        lemma_last_comma(
            listed(a.drop_last()),
            decimal(a.last() as nat),
            listed(b.drop_last()),
            decimal(b.last() as nat),
        );
        lemma_decimal_injective(a.last() as nat, b.last() as nat);
        lemma_listed_injective(a.drop_last(), b.drop_last());
        assert(a =~= a.drop_last().push(a.last()));
        assert(b =~= b.drop_last().push(b.last()));
    }
}

/// The text that is kept for a queue keeps the queue, however long it is: it
/// can be read, and read back it gives the same identifiers in the same order.
pub proof fn lemma_round_trip(ids: Seq<u32>)
    ensures
        readable(json_array(ids)),
        decoding(json_array(ids)) == Some(ids),
{
    let text = json_array(ids);
    let found = choose|found: Seq<u32>| json_array(found) == text;
    assert(listed(found) =~= json_array(found).subrange(1, json_array(found).len() - 1));
    assert(listed(ids) =~= json_array(ids).subrange(1, json_array(ids).len() - 1));
    lemma_listed_injective(found, ids);
}

} // verus!
