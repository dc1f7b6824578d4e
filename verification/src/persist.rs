//! The persisted form of a store: a JSON object that maps each title to the
//! ordinal of its state.
//!
//! Reading and writing JSON text is done by `serde_json`. The two functions
//! that call it are trusted; what happens to their results is verified.

use crate::status::TodoState;
use crate::store::{distinct_keys, ordinal_map, pairs_map, Todo};
use std::collections::BTreeMap;
use vstd::prelude::*;

verus! {

/// The error type of `serde_json`.
#[verifier::external_type_specification]
#[verifier::external_body]
pub struct ExJsonError(serde_json::Error);

/// Why a store could not be loaded.
#[derive(Debug, PartialEq, Eq)]
pub enum LoadError {
    /// The text is no JSON object of titles and small integers; the string
    /// is the parser's diagnostic.
    Malformed(String),
    /// A task has an ordinal that stands for no state.
    UnknownOrdinal { title: String, ordinal: u8 },
}

/// What `serde_json::from_slice` makes of a text when asked for a
/// `BTreeMap<String, u8>`: the pairs of the map in the order of their keys,
/// or the display of the error it returns.
pub uninterp spec fn json_document(text: Seq<u8>) -> Result<Seq<(Seq<char>, u8)>, Seq<char>>;

/// The text that `serde_json::to_string_pretty` writes for the
/// `BTreeMap<&str, u8>` collected from a sequence of pairs.
pub uninterp spec fn json_pretty(pairs: Seq<(Seq<char>, u8)>) -> Seq<char>;

/// The outcome of decoding, by the views of its strings.
pub open spec fn decoded_view(outcome: Result<Vec<(String, u8)>, String>) -> Result<
    Seq<(Seq<char>, u8)>,
    Seq<char>,
> {
    match outcome {
        Ok(pairs) => Ok(pairs.deep_view()),
        Err(message) => Err(message@),
    }
}

/// The byte is JSON white space: a space, a tab, a line feed or a carriage
/// return.
pub open spec fn is_space(byte: u8) -> bool {
    byte == 0x20 || byte == 0x09 || byte == 0x0a || byte == 0x0d
}

/// The text holds nothing but white space; the empty text is blank.
pub open spec fn is_blank(text: Seq<u8>) -> bool {
    forall|i: int| 0 <= i < text.len() ==> is_space(#[trigger] text[i])
}

/// Every ordinal among the pairs stands for a state.
pub open spec fn all_known(pairs: Seq<(Seq<char>, u8)>) -> bool {
    forall|i: int| 0 <= i < pairs.len() ==> (#[trigger] pairs[i]).1 <= 4
}

/// The pair at `i` is the first whose ordinal stands for no state.
pub open spec fn is_first_unknown(pairs: Seq<(Seq<char>, u8)>, i: int) -> bool {
    &&& 0 <= i < pairs.len()
    &&& pairs[i].1 > 4
    &&& all_known(pairs.take(i))
}

/// The tasks that a map of ordinals stands for, where each ordinal stands
/// for a state.
pub open spec fn status_map(ordinals: Map<Seq<char>, u8>) -> Map<Seq<char>, TodoState> {
    ordinals.map_values(|ordinal: u8| TodoState::from_ordinal_spec(ordinal).unwrap())
}

/// What loading makes of each outcome of decoding.
///
/// Pairs whose ordinals all stand for a state give the store of their map.
/// Pairs with another ordinal are refused, with the first such pair. A text
/// that could not be decoded is refused with the parser's diagnostic.
pub open spec fn loads_as(
    outcome: Result<Seq<(Seq<char>, u8)>, Seq<char>>,
    loaded: Result<Todo, LoadError>,
) -> bool {
    match outcome {
        Ok(pairs) => if all_known(pairs) {
            loaded matches Ok(store) && store@ == status_map(pairs_map(pairs))
        } else {
            loaded matches Err(LoadError::UnknownOrdinal { title, ordinal }) && exists|i: int|
                is_first_unknown(pairs, i) && pairs[i] == (title@, ordinal)
        },
        Err(message) => loaded matches Err(LoadError::Malformed(text)) && text@ == message,
    }
}

/// Calls `serde_json::from_slice` for a `BTreeMap<String, u8>`.
///
/// The contract names the outcome `json_document` of the text and claims no
/// more than that the same text always gives the same outcome: on success
/// the pairs of the map as its iterator hands them out, on failure the
/// display of the error.
#[verifier::external_body]
fn decode_document(text: &[u8]) -> (outcome: Result<Vec<(String, u8)>, String>)
    ensures
        decoded_view(outcome) == json_document(text@),
{
    match serde_json::from_slice::<BTreeMap<String, u8>>(text) {
        Ok(map) => Ok(map.into_iter().collect()),
        Err(error) => Err(error.to_string()),
    }
}

/// Calls `serde_json::to_string_pretty` on the `BTreeMap<&str, u8>` collected
/// from the pairs.
///
/// The contract names the text `json_pretty` of the pairs, and claims that
/// the call succeeds: serialisation fails only where a key is no string or
/// where the value's own `Serialize` fails, and neither can happen for
/// string keys and `u8` values.
#[verifier::external_body]
fn encode_document(pairs: &Vec<(String, u8)>) -> (text: Result<String, serde_json::Error>)
    ensures
        text is Ok,
        text.unwrap()@ == json_pretty(pairs.deep_view()),
{
    let map: BTreeMap<&str, u8> = pairs.iter().map(|pair| (pair.0.as_str(), pair.1)).collect();
    serde_json::to_string_pretty(&map)
}

/// Whether a text holds nothing but white space.
pub fn blank(text: &[u8]) -> (all: bool)
    ensures
        all == is_blank(text@),
{
    let mut i: usize = 0;
    while i < text.len()
        invariant
            i <= text.len(),
            forall|j: int| 0 <= j < i ==> is_space(#[trigger] text@[j]),
        decreases text.len() - i,
    {
        let byte = text[i];
        if !(byte == 0x20 || byte == 0x09 || byte == 0x0a || byte == 0x0d) {
            return false;
        }
        i += 1;
    }
    true
}

impl Todo {
    /// Loads a store from the outcome of decoding its persisted text: the
    /// pairs of title and ordinal, or the parser's diagnostic.
    pub fn from_decoded(outcome: Result<Vec<(String, u8)>, String>) -> (loaded: Result<
        Todo,
        LoadError,
    >)
        ensures
            loads_as(decoded_view(outcome), loaded),
    {
        match outcome {
            Ok(pairs) => {
                let ghost all = pairs.deep_view();
                let mut store = Todo::new();
                let mut i: usize = 0;
                assert(all.take(0) == Seq::<(Seq<char>, u8)>::empty());
                assert(store@ =~= status_map(pairs_map(all.take(0))));
                while i < pairs.len()
                    invariant
                        i <= pairs.len(),
                        all == pairs.deep_view(),
                        decoded_view(outcome) == Ok::<Seq<(Seq<char>, u8)>, Seq<char>>(all),
                        all_known(all.take(i as int)),
                        store@ == status_map(pairs_map(all.take(i as int))),
                    decreases pairs.len() - i,
                {
                    let ordinal = pairs[i].1;
                    assert(all[i as int] == (pairs[i as int].0@, ordinal));
                    match TodoState::from_ordinal(ordinal) {
                        Some(state) => {
                            store.set(pairs[i].0.clone(), state);
                            proof {
                                let done = all.take(i as int);
                                let more = all.take(i + 1);
                                assert(more.drop_last() == done);
                                assert(more.last() == all[i as int]);
                                assert(store@ =~= status_map(pairs_map(more)));
                                assert forall|j: int| 0 <= j < more.len() implies (
                                #[trigger] more[j]).1 <= 4 by {
                                    if j < i {
                                        assert(done[j] == more[j]);
                                    }
                                }
                            }
                        },
                        None => {
                            let title = pairs[i].0.clone();
                            proof {
                                assert(is_first_unknown(all, i as int));
                                assert(all[i as int] == (title@, ordinal));
                                assert(!all_known(all));
                            }
                            return Err(LoadError::UnknownOrdinal { title, ordinal });
                        },
                    }
                    i += 1;
                }
                assert(all.take(i as int) == all);
                Ok(store)
            },
            Err(message) => Err(LoadError::Malformed(message)),
        }
    }

    /// Loads a store from its persisted text.
    ///
    /// A blank text, such as that of a file just created, is the empty
    /// store. Any other text has to be a JSON object that maps each title
    /// to an ordinal from 0 to 4; a text that is not, or that ends too
    /// early, is refused.
    pub fn from_json(text: &[u8]) -> (loaded: Result<Todo, LoadError>)
        ensures
            if is_blank(text@) {
                loaded matches Ok(store) && store@ == Map::<Seq<char>, TodoState>::empty()
            } else {
                loads_as(json_document(text@), loaded)
            },
    {
        if blank(text) {
            Ok(Todo::new())
        } else {
            Todo::from_decoded(decode_document(text))
        }
    }

    /// Writes the store as pretty-printed JSON text: an object that maps
    /// each title to the ordinal of its state.
    ///
    /// The text is that of the store's pairs of title and ordinal, which
    /// hold each title once and stand for the persisted map of its tasks.
    pub fn to_json(&self) -> (text: String)
        ensures
            text@ == json_pretty(self.document()),
            distinct_keys(self.document()),
            pairs_map(self.document()) == ordinal_map(self@),
    {
        let pairs = self.ordinals();
        encode_document(&pairs).unwrap()
    }
}

/// Reading back what was written restores the store: whenever decoding
/// hands back pairs that stand for the persisted map of some tasks, with no
/// title twice, loading gives a store of exactly those tasks.
pub proof fn lemma_reload_restores(
    tasks: Map<Seq<char>, TodoState>,
    pairs: Seq<(Seq<char>, u8)>,
    loaded: Result<Todo, LoadError>,
)
    requires
        distinct_keys(pairs),
        pairs_map(pairs) == ordinal_map(tasks),
        loads_as(Ok(pairs), loaded),
    ensures
        loaded matches Ok(store) && store@ == tasks,
{
    assert forall|i: int| 0 <= i < pairs.len() implies (#[trigger] pairs[i]).1 <= 4 by {
        crate::store::lemma_pairs_map_value(pairs, i);
        assert(ordinal_map(tasks)[pairs[i].0] == tasks[pairs[i].0].ordinal_spec());
    }
    assert(status_map(ordinal_map(tasks)) =~= tasks) by {
        assert forall|title: Seq<char>| tasks.contains_key(title) implies status_map(
            ordinal_map(tasks),
        )[title] == tasks[title] by {
            TodoState::lemma_ordinal_round_trip(tasks[title], 0);
        }
    }
}

} // verus!
