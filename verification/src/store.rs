//! The task store: a mapping from task title to status.
//!
//! The store keeps its tasks in a vector in which no title occurs twice. Its
//! view is the map from title to status, and every operation is specified
//! over that map.

use crate::status::TodoState;
use vstd::prelude::*;

verus! {

/// The map that a sequence of pairs stands for. Where a key occurs more than
/// once, its last pair counts.
pub open spec fn pairs_map<V>(pairs: Seq<(Seq<char>, V)>) -> Map<Seq<char>, V>
    decreases pairs.len(),
{
    if pairs.len() == 0 {
        Map::empty()
    } else {
        pairs_map(pairs.drop_last()).insert(pairs.last().0, pairs.last().1)
    }
}

/// No key occurs twice among the pairs.
pub open spec fn distinct_keys<V>(pairs: Seq<(Seq<char>, V)>) -> bool {
    forall|i: int, j: int| 0 <= i < j < pairs.len() ==> pairs[i].0 != pairs[j].0
}

/// Pairs with distinct keys still have distinct keys without their last.
proof fn lemma_distinct_front<V>(pairs: Seq<(Seq<char>, V)>)
    requires
        distinct_keys(pairs),
        pairs.len() > 0,
    ensures
        distinct_keys(pairs.drop_last()),
{
    let front = pairs.drop_last();
    assert forall|a: int, b: int| 0 <= a < b < front.len() implies front[a].0 != front[b].0 by {
        assert(pairs[a].0 != pairs[b].0);
    }
}

/// The keys of `pairs_map` are the keys of the pairs.
pub proof fn lemma_pairs_map_keys<V>(pairs: Seq<(Seq<char>, V)>)
    ensures
        forall|key: Seq<char>|
            pairs_map(pairs).contains_key(key) <==> exists|i: int|
                0 <= i < pairs.len() && #[trigger] pairs[i].0 == key,
        pairs_map(pairs).dom().finite(),
    decreases pairs.len(),
{
    if pairs.len() > 0 {
        let front = pairs.drop_last();
        lemma_pairs_map_keys(front);
        assert forall|key: Seq<char>|
            pairs_map(pairs).contains_key(key) <==> exists|i: int|
                0 <= i < pairs.len() && #[trigger] pairs[i].0 == key by {
            if pairs_map(pairs).contains_key(key) {
                if key == pairs.last().0 {
                    assert(pairs[pairs.len() - 1].0 == key);
                } else {
                    let i = choose|i: int| 0 <= i < front.len() && #[trigger] front[i].0 == key;
                    assert(pairs[i].0 == key);
                }
            }
            if exists|i: int| 0 <= i < pairs.len() && #[trigger] pairs[i].0 == key {
                let i = choose|i: int| 0 <= i < pairs.len() && #[trigger] pairs[i].0 == key;
                if i < pairs.len() - 1 {
                    assert(front[i].0 == key);
                }
            }
        }
    }
}

/// Among pairs with distinct keys, each key is mapped to the value it is
/// paired with.
pub proof fn lemma_pairs_map_value<V>(pairs: Seq<(Seq<char>, V)>, i: int)
    requires
        distinct_keys(pairs),
        0 <= i < pairs.len(),
    ensures
        pairs_map(pairs).contains_key(pairs[i].0),
        pairs_map(pairs)[pairs[i].0] == pairs[i].1,
    decreases pairs.len(),
{
    if i < pairs.len() - 1 {
        let front = pairs.drop_last();
        lemma_distinct_front(pairs);
        lemma_pairs_map_value(front, i);
        assert(front[i] == pairs[i]);
        assert(pairs[i].0 != pairs[pairs.len() - 1].0);
    }
}

/// Replacing the value of one pair, among pairs with distinct keys, sets
/// that key in the map and keeps the keys distinct.
pub proof fn lemma_pairs_map_update<V>(pairs: Seq<(Seq<char>, V)>, i: int, value: V)
    requires
        distinct_keys(pairs),
        0 <= i < pairs.len(),
    ensures
        distinct_keys(pairs.update(i, (pairs[i].0, value))),
        pairs_map(pairs.update(i, (pairs[i].0, value))) == pairs_map(pairs).insert(
            pairs[i].0,
            value,
        ),
    decreases pairs.len(),
{
    let changed = pairs.update(i, (pairs[i].0, value));
    assert(distinct_keys(changed)) by {
        assert forall|a: int, b: int| 0 <= a < b < changed.len() implies changed[a].0
            != changed[b].0 by {
            assert(pairs[a].0 != pairs[b].0);
        }
    }
    let front = pairs.drop_last();
    if i == pairs.len() - 1 {
        assert(changed.drop_last() == front);
        assert(pairs_map(changed) == pairs_map(pairs).insert(pairs[i].0, value));
    } else {
        lemma_distinct_front(pairs);
        lemma_pairs_map_update(front, i, value);
        assert(front[i] == pairs[i]);
        assert(changed.drop_last() == front.update(i, (pairs[i].0, value)));
        assert(changed.last() == pairs.last());
        assert(pairs[i].0 != pairs[pairs.len() - 1].0);
        assert(pairs_map(changed) == pairs_map(pairs).insert(pairs[i].0, value));
    }
}

/// Pairs with distinct keys stand for a map with as many keys as there are
/// pairs.
pub proof fn lemma_pairs_map_len<V>(pairs: Seq<(Seq<char>, V)>)
    requires
        distinct_keys(pairs),
    ensures
        pairs_map(pairs).dom().finite(),
        pairs_map(pairs).len() == pairs.len(),
    decreases pairs.len(),
{
    lemma_pairs_map_keys(pairs);
    if pairs.len() > 0 {
        let front = pairs.drop_last();
        lemma_distinct_front(pairs);
        lemma_pairs_map_len(front);
        lemma_pairs_map_keys(front);
        if pairs_map(front).contains_key(pairs.last().0) {
            let i = choose|i: int| 0 <= i < front.len() && #[trigger] front[i].0 == pairs.last().0;
            assert(pairs[i].0 != pairs[pairs.len() - 1].0);
        }
    }
}

/// A map after each of the titles has been set to `Active`: every title of
/// the list is present and `Active`, and every other task is as it was.
pub open spec fn inserted_all(
    tasks: Map<Seq<char>, TodoState>,
    titles: Seq<Seq<char>>,
) -> Map<Seq<char>, TodoState> {
    Map::new(
        |title: Seq<char>| tasks.contains_key(title) || titles.contains(title),
        |title: Seq<char>|
            if titles.contains(title) {
                TodoState::Active
            } else {
                tasks[title]
            },
    )
}

/// A map after a title has been completed: its task is `Complete` where the
/// map holds the title, and the map is unchanged where it does not.
pub open spec fn completed(
    tasks: Map<Seq<char>, TodoState>,
    title: Seq<char>,
) -> Map<Seq<char>, TodoState> {
    if tasks.contains_key(title) {
        tasks.insert(title, TodoState::Complete)
    } else {
        tasks
    }
}

/// The titles that a filter selects: those of the tasks in that state, and
/// none at all for `Unknown`.
pub open spec fn listing(tasks: Map<Seq<char>, TodoState>, state: TodoState) -> Set<Seq<char>> {
    Set::new(
        |title: Seq<char>|
            state != TodoState::Unknown && tasks.contains_key(title) && tasks[title] == state,
    )
}

/// What is persisted of a map of tasks: each title with the ordinal of its
/// state.
pub open spec fn ordinal_map(tasks: Map<Seq<char>, TodoState>) -> Map<Seq<char>, u8> {
    tasks.map_values(|state: TodoState| state.ordinal_spec())
}

/// The titles of the tasks in a given state, in the order of the tasks.
spec fn selected(tasks: Seq<(Seq<char>, TodoState)>, state: TodoState) -> Seq<Seq<char>>
    decreases tasks.len(),
{
    if tasks.len() == 0 {
        Seq::empty()
    } else if tasks.last().1 == state {
        selected(tasks.drop_last(), state).push(tasks.last().0)
    } else {
        selected(tasks.drop_last(), state)
    }
}

/// Among tasks with distinct titles, the selected titles are distinct too,
/// and they are the titles that the map of the tasks holds in that state.
proof fn lemma_selected(tasks: Seq<(Seq<char>, TodoState)>, state: TodoState)
    requires
        distinct_keys(tasks),
    ensures
        selected(tasks, state).no_duplicates(),
        forall|title: Seq<char>|
            #[trigger] selected(tasks, state).contains(title) <==> pairs_map(tasks).contains_key(
                title,
            ) && pairs_map(tasks)[title] == state,
    decreases tasks.len(),
{
    if tasks.len() > 0 {
        let front = tasks.drop_last();
        let last = tasks.last();
        lemma_distinct_front(tasks);
        lemma_selected(front, state);
        lemma_pairs_map_keys(front);
        assert(!pairs_map(front).contains_key(last.0)) by {
            if pairs_map(front).contains_key(last.0) {
                let i = choose|i: int| 0 <= i < front.len() && #[trigger] front[i].0 == last.0;
                assert(tasks[i].0 != tasks[tasks.len() - 1].0);
            }
        }
        let chosen = selected(front, state);
        assert forall|title: Seq<char>|
            #[trigger] selected(tasks, state).contains(title) <==> pairs_map(tasks).contains_key(
                title,
            ) && pairs_map(tasks)[title] == state by {
            if last.1 == state {
                let all = chosen.push(last.0);
                assert(all[chosen.len() as int] == last.0);
                if all.contains(title) {
                    let k = choose|k: int| 0 <= k < all.len() && all[k] == title;
                    if k < chosen.len() {
                        assert(chosen[k] == title);
                    }
                }
                if chosen.contains(title) {
                    let k = choose|k: int| 0 <= k < chosen.len() && chosen[k] == title;
                    assert(all[k] == title);
                }
            }
        }
        if last.1 == state {
            assert(!chosen.contains(last.0));
            assert(chosen.push(last.0).no_duplicates());
        }
    }
}

/// What is persisted of a sequence of tasks: each title with the ordinal of
/// its state, in the same order.
pub open spec fn ordinal_pairs(tasks: Seq<(Seq<char>, TodoState)>) -> Seq<(Seq<char>, u8)> {
    tasks.map_values(|task: (Seq<char>, TodoState)| (task.0, task.1.ordinal_spec()))
}

/// The persisted pairs of a sequence of tasks stand for the persisted map
/// of its tasks, and their keys are distinct where the titles are.
pub proof fn lemma_ordinal_pairs(tasks: Seq<(Seq<char>, TodoState)>)
    ensures
        pairs_map(ordinal_pairs(tasks)) == ordinal_map(pairs_map(tasks)),
        distinct_keys(tasks) ==> distinct_keys(ordinal_pairs(tasks)),
    decreases tasks.len(),
{
    let pairs = ordinal_pairs(tasks);
    if tasks.len() == 0 {
        assert(pairs_map(pairs) =~= ordinal_map(pairs_map(tasks)));
    } else {
        let front = tasks.drop_last();
        lemma_ordinal_pairs(front);
        assert(pairs.drop_last() == ordinal_pairs(front));
        assert(pairs.last() == (tasks.last().0, tasks.last().1.ordinal_spec()));
        assert(pairs_map(pairs) =~= ordinal_map(pairs_map(tasks)));
    }
    if distinct_keys(tasks) {
        assert forall|a: int, b: int| 0 <= a < b < pairs.len() implies pairs[a].0
            != pairs[b].0 by {
            assert(tasks[a].0 != tasks[b].0);
        }
    }
}

/// The tasks that the entries of a store stand for: each title by its view.
spec fn task_views(entries: Seq<(String, TodoState)>) -> Seq<(Seq<char>, TodoState)> {
    entries.map_values(|entry: (String, TodoState)| (entry.0@, entry.1))
}

/// The task store.
pub struct Todo {
    entries: Vec<(String, TodoState)>,
}

impl View for Todo {
    type V = Map<Seq<char>, TodoState>;

    closed spec fn view(&self) -> Map<Seq<char>, TodoState> {
        pairs_map(self.tasks())
    }
}

impl Todo {
    /// The tasks in the order in which the store holds them.
    pub closed spec fn tasks(&self) -> Seq<(Seq<char>, TodoState)> {
        task_views(self.entries@)
    }

    /// The pairs of title and ordinal that are persisted, in the order in
    /// which the store holds its tasks.
    pub open spec fn document(&self) -> Seq<(Seq<char>, u8)> {
        ordinal_pairs(self.tasks())
    }

    #[verifier::type_invariant]
    spec fn titles_are_distinct(&self) -> bool {
        distinct_keys(self.tasks())
    }

    /// An empty store.
    pub fn new() -> (store: Todo)
        ensures
            store@ == Map::<Seq<char>, TodoState>::empty(),
    {
        Todo { entries: Vec::new() }
    }

    /// Where the store holds a title, if it does.
    fn position(&self, key: &String) -> (found: Option<usize>)
        ensures
            match found {
                Some(i) => i < self.tasks().len() && self.tasks()[i as int].0 == key@,
                None => !self@.contains_key(key@),
            },
    {
        let mut i: usize = 0;
        while i < self.entries.len()
            invariant
                i <= self.entries.len(),
                forall|j: int| 0 <= j < i ==> self.tasks()[j].0 != key@,
            decreases self.entries.len() - i,
        {
            if self.entries[i].0 == *key {
                return Some(i);
            }
            i += 1;
        }
        proof {
            lemma_pairs_map_keys(self.tasks());
        }
        None
    }

    /// The state of a task, if the store holds its title.
    pub fn get(&self, key: &String) -> (state: Option<TodoState>)
        ensures
            state == (if self@.contains_key(key@) {
                Some(self@[key@])
            } else {
                None
            }),
    {
        match self.position(key) {
            Some(i) => {
                proof {
                    use_type_invariant(self);
                    lemma_pairs_map_value(self.tasks(), i as int);
                }
                Some(self.entries[i].1)
            },
            None => None,
        }
    }

    /// The number of tasks.
    pub fn len(&self) -> (n: usize)
        ensures
            n == self@.len(),
            self@.dom().finite(),
    {
        proof {
            use_type_invariant(self);
            lemma_pairs_map_len(self.tasks());
        }
        self.entries.len()
    }

    /// Sets a task to a state, adding it where the title is new and
    /// overwriting its state where it is not.
    pub(crate) fn set(&mut self, key: String, state: TodoState)
        ensures
            final(self)@ == old(self)@.insert(key@, state),
    {
        proof {
            use_type_invariant(&*self);
        }
        let found = self.position(&key);
        let ghost before = self.tasks();
        let mut entries: Vec<(String, TodoState)> = Vec::new();
        proof {
            assert(task_views(entries@).len() == 0);
        }
        core::mem::swap(&mut self.entries, &mut entries);
        match found {
            Some(i) => {
                entries[i].1 = state;
                proof {
                    lemma_pairs_map_update(before, i as int, state);
                    assert(task_views(entries@) == before.update(i as int, (key@, state)));
                }
            },
            None => {
                entries.push((key, state));
                proof {
                    lemma_pairs_map_keys(before);
                    assert(task_views(entries@) == before.push((key@, state)));
                    assert(before.push((key@, state)).drop_last() == before);
                }
            },
        }
        core::mem::swap(&mut self.entries, &mut entries);
    }

    /// Sets one task to `Active`, adding it where the title is new.
    pub fn insert_one(&mut self, key: String)
        ensures
            final(self)@ == old(self)@.insert(key@, TodoState::Active),
    {
        self.set(key, TodoState::Active);
    }

    /// Sets each title of the list to `Active`, overwriting the state of a
    /// task that the store already holds. A title that occurs twice in the
    /// list gives one task.
    pub fn insert(&mut self, list: &Vec<String>)
        ensures
            final(self)@ == inserted_all(old(self)@, list.deep_view()),
    {
        let ghost titles = list.deep_view();
        let mut i: usize = 0;
        assert(self@ =~= inserted_all(self@, titles.take(0)));
        while i < list.len()
            invariant
                i <= list.len(),
                titles == list.deep_view(),
                self@ == inserted_all(old(self)@, titles.take(i as int)),
            decreases list.len() - i,
        {
            self.insert_one(list[i].clone());
            proof {
                let done = titles.take(i as int);
                let more = titles.take(i + 1);
                assert(more == done.push(titles[i as int]));
                assert forall|title: Seq<char>|
                    more.contains(title) <==> done.contains(title) || title
                        == titles[i as int] by {
                    if more.contains(title) {
                        let k = choose|k: int| 0 <= k < more.len() && more[k] == title;
                        if k < done.len() {
                            assert(done[k] == title);
                        }
                    }
                    if done.contains(title) {
                        let k = choose|k: int| 0 <= k < done.len() && done[k] == title;
                        assert(more[k] == title);
                    }
                    assert(more[i as int] == titles[i as int]);
                }
                assert(self@ =~= inserted_all(old(self)@, more));
            }
            i += 1;
        }
        assert(titles.take(i as int) == titles);
    }

    /// Marks a task `Complete`. Where the store does not hold the title, it
    /// is left as it was and `None` is returned.
    pub fn complete(&mut self, key: &String) -> (done: Option<()>)
        ensures
            done is Some <==> old(self)@.contains_key(key@),
            final(self)@ == completed(old(self)@, key@),
    {
        match self.get(key) {
            Some(_) => {
                self.set(key.clone(), TodoState::Complete);
                Some(())
            },
            None => None,
        }
    }

    /// The titles of the tasks in a given state, each once. `Unknown`
    /// selects nothing, whatever the store holds.
    pub fn list(&self, state: TodoState) -> (titles: Vec<String>)
        ensures
            titles.deep_view().no_duplicates(),
            titles.deep_view().to_set() == listing(self@, state),
            state == TodoState::Unknown ==> titles@.len() == 0,
    {
        let mut titles: Vec<String> = Vec::new();
        if state == TodoState::Unknown {
            assert(titles.deep_view().len() == 0);
            assert(titles.deep_view().to_set() =~= listing(self@, state));
            return titles;
        }
        let mut i: usize = 0;
        assert(self.tasks().take(0) == Seq::<(Seq<char>, TodoState)>::empty());
        assert(titles.deep_view() == selected(self.tasks().take(0), state));
        while i < self.entries.len()
            invariant
                i <= self.entries.len(),
                titles.deep_view() == selected(self.tasks().take(i as int), state),
            decreases self.entries.len() - i,
        {
            let ghost before = titles.deep_view();
            if self.entries[i].1 == state {
                titles.push(self.entries[i].0.clone());
                assert(titles.deep_view() == before.push(self.tasks()[i as int].0));
            }
            proof {
                let more = self.tasks().take(i + 1);
                assert(more.drop_last() == self.tasks().take(i as int));
                assert(more.last() == self.tasks()[i as int]);
            }
            i += 1;
        }
        proof {
            use_type_invariant(self);
            assert(self.tasks().take(i as int) == self.tasks());
            lemma_selected(self.tasks(), state);
            assert(titles.deep_view().to_set() =~= listing(self@, state));
        }
        titles
    }

    /// The pairs of title and ordinal that are persisted.
    pub fn ordinals(&self) -> (pairs: Vec<(String, u8)>)
        ensures
            pairs.deep_view() == self.document(),
            distinct_keys(self.document()),
            pairs_map(self.document()) == ordinal_map(self@),
    {
        let mut pairs: Vec<(String, u8)> = Vec::new();
        let mut i: usize = 0;
        while i < self.entries.len()
            invariant
                i <= self.entries.len(),
                pairs.deep_view() == self.document().take(i as int),
            decreases self.entries.len() - i,
        {
            let ghost before = pairs.deep_view();
            pairs.push((self.entries[i].0.clone(), self.entries[i].1.ordinal()));
            assert(pairs.deep_view() == before.push(self.document()[i as int]));
            assert(self.document().take(i + 1) == before.push(self.document()[i as int]));
            i += 1;
        }
        proof {
            use_type_invariant(self);
            assert(self.document().take(i as int) == self.document());
            lemma_ordinal_pairs(self.tasks());
        }
        pairs
    }
}

/// Adding one title sets that one task.
pub proof fn lemma_insert_single(tasks: Map<Seq<char>, TodoState>, title: Seq<char>)
    ensures
        inserted_all(tasks, seq![title]) == tasks.insert(title, TodoState::Active),
{
    let single = seq![title];
    assert(single[0] == title);
    assert(inserted_all(tasks, single) =~= tasks.insert(title, TodoState::Active));
}

/// Adding is idempotent: adding the same titles a second time changes
/// nothing, and each of them is then `Active`, whatever its state was before
/// the first time.
pub proof fn lemma_insert_twice(tasks: Map<Seq<char>, TodoState>, titles: Seq<Seq<char>>)
    ensures
        inserted_all(inserted_all(tasks, titles), titles) == inserted_all(tasks, titles),
        forall|title: Seq<char>|
            titles.contains(title) ==> inserted_all(tasks, titles).contains_key(title)
                && inserted_all(tasks, titles)[title] == TodoState::Active,
        forall|title: Seq<char>|
            !titles.contains(title) && tasks.contains_key(title) ==> inserted_all(
                tasks,
                titles,
            ).contains_key(title) && inserted_all(tasks, titles)[title] == tasks[title],
{
    assert(inserted_all(inserted_all(tasks, titles), titles) =~= inserted_all(tasks, titles));
}

/// Adding a title again after its task was completed resets the task to
/// `Active`, and the store holds the title once, as after the first time.
pub proof fn lemma_insert_resets(tasks: Map<Seq<char>, TodoState>, title: Seq<char>)
    ensures
        inserted_all(completed(inserted_all(tasks, seq![title]), title), seq![title])
            == inserted_all(tasks, seq![title]),
        inserted_all(tasks, seq![title])[title] == TodoState::Active,
{
    lemma_insert_single(tasks, title);
    lemma_insert_single(completed(tasks.insert(title, TodoState::Active), title), title);
    assert(tasks.insert(title, TodoState::Active).insert(title, TodoState::Complete).insert(
        title,
        TodoState::Active,
    ) =~= tasks.insert(title, TodoState::Active));
}

/// Completing a title that the tasks do not hold changes nothing; on no
/// tasks at all it leaves none. Completing a title after it was added makes
/// it `Complete`, and the filter `Complete` then selects it.
pub proof fn lemma_complete(tasks: Map<Seq<char>, TodoState>, title: Seq<char>)
    ensures
        !tasks.contains_key(title) ==> completed(tasks, title) == tasks,
        completed(Map::<Seq<char>, TodoState>::empty(), title) == Map::<
            Seq<char>,
            TodoState,
        >::empty(),
        inserted_all(tasks, seq![title]).contains_key(title),
        completed(inserted_all(tasks, seq![title]), title) == tasks.insert(
            title,
            TodoState::Complete,
        ),
        listing(completed(inserted_all(tasks, seq![title]), title), TodoState::Complete).contains(
            title,
        ),
{
    lemma_insert_single(tasks, title);
    assert(tasks.insert(title, TodoState::Active).insert(title, TodoState::Complete)
        =~= tasks.insert(title, TodoState::Complete));
}

/// A filter selects exactly the titles in its state, and `Unknown` selects
/// nothing, whatever the tasks are.
pub proof fn lemma_listing(tasks: Map<Seq<char>, TodoState>, state: TodoState)
    ensures
        listing(tasks, TodoState::Unknown) == Set::<Seq<char>>::empty(),
        state != TodoState::Unknown ==> forall|title: Seq<char>|
            listing(tasks, state).contains(title) <==> tasks.contains_key(title) && tasks[title]
                == state,
{
    assert(listing(tasks, TodoState::Unknown) =~= Set::<Seq<char>>::empty());
}

} // verus!
