use vstd::prelude::*;

verus! {

/// What the system file picker has handed over and not yet been collected: the
/// picked file's name (its URI) and contents, and whether a pick is waiting.
/// A waiting pick always holds a name and contents.
pub struct SafState {
    ready: bool,
    file_name: Option<String>,
    file_data: Option<Vec<u8>>,
}

/// The state by plain values: (a pick is waiting, picked name, picked contents).
pub type SafView = (bool, Option<Seq<char>>, Option<Seq<u8>>);

/// Bytes held in an `Option`, by their view.
pub open spec fn bytes_view(data: Option<Vec<u8>>) -> Option<Seq<u8>> {
    match data {
        Some(d) => Some(d@),
        None => None,
    }
}

/// A name held in an `Option`, by its view.
pub open spec fn name_view(name: Option<String>) -> Option<Seq<char>> {
    match name {
        Some(n) => Some(n@),
        None => None,
    }
}

impl View for SafState {
    type V = SafView;

    closed spec fn view(&self) -> SafView {
        (self.ready, name_view(self.file_name), bytes_view(self.file_data))
    }
}

/// Nothing picked yet.
pub open spec fn initial_state() -> SafView {
    (false, None, None)
}

/// A waiting pick holds a name and contents.
pub open spec fn saf_wf(state: SafView) -> bool {
    state.0 ==> state.1 is Some && state.2 is Some
}

/// The state after the picker hands over `uri` and `data`.
pub open spec fn after_pick(state: SafView, uri: Seq<char>, data: Seq<u8>) -> SafView {
    (true, Some(uri), Some(data))
}

/// The state after a collection, and what it hands over: a waiting pick gives up its
/// contents and stops waiting; with none waiting nothing changes and nothing comes out.
pub open spec fn collect(state: SafView) -> (SafView, Option<Seq<u8>>) {
    if state.0 {
        ((false, state.1, None), state.2)
    } else {
        (state, None)
    }
}

impl SafState {
    #[verifier::type_invariant]
    closed spec fn waiting_pick_is_whole(&self) -> bool {
        saf_wf(self@)
    }

    /// Nothing picked yet.
    pub fn new() -> (s: SafState)
        ensures
            s@ == initial_state(),
    {
        SafState { ready: false, file_name: None, file_data: None }
    }

    /// Records a file that the picker handed over: its URI and its contents, and
    /// marks a pick as waiting. An earlier pick that was not collected is replaced.
    pub fn file_picked(&mut self, uri: String, data: Vec<u8>)
        ensures
            final(self)@ == after_pick(old(self)@, uri@, data@),
    {
        proof {
            use_type_invariant(&*self);
        }
        self.file_name = Some(uri);
        self.file_data = Some(data);
        self.ready = true;
    }

    /// Whether a pick is waiting. Whenever one is, it holds a name and contents.
    pub fn is_ready(&self) -> (r: bool)
        ensures
            r == self@.0,
            saf_wf(self@),
    {
        proof {
            use_type_invariant(self);
        }
        self.ready
    }

    /// The name (URI) of the latest pick, if there was one.
    pub fn file_name(&self) -> (n: &Option<String>)
        ensures
            name_view(*n) == self@.1,
    {
        &self.file_name
    }
}

/// Collects a waiting pick: when one is waiting, clears the mark and hands over the
/// picked contents, leaving none behind; otherwise returns `None` and changes nothing.
/// The picked name is kept either way. Contents come out exactly when a pick was waiting.
pub fn check_saf_result(state: &mut SafState) -> (picked: Option<Vec<u8>>)
    ensures
        (final(state)@, bytes_view(picked)) == collect(old(state)@),
        picked is Some <==> old(state)@.0,
        saf_wf(final(state)@),
{
    proof {
        use_type_invariant(&*state);
    }
    if state.ready {
        state.ready = false;
        let mut data: Option<Vec<u8>> = None;
        std::mem::swap(&mut data, &mut state.file_data);
        data
    } else {
        None
    }
}

/// A pick is collected exactly once: after the picker hands over `data`, the first
/// collection returns `data` and the next one returns nothing, whatever the state was.
pub proof fn pick_collected_once(state: SafView, uri: Seq<char>, data: Seq<u8>)
    ensures
        collect(after_pick(state, uri, data)).1 == Some(data),
        collect(collect(after_pick(state, uri, data)).0).1 is None,
        !collect(after_pick(state, uri, data)).0.0,
{
}

/// Collecting with no pick waiting changes nothing and hands over nothing.
pub proof fn idle_collect_changes_nothing(state: SafView)
    requires
        !state.0,
    ensures
        collect(state) == (state, None::<Seq<u8>>),
{
}

/// The contents that a pick hands over (none for a collection).
pub open spec fn picked_data(call: Option<(Seq<char>, Seq<u8>)>) -> Seq<u8> {
    match call {
        Some((_, data)) => data,
        None => Seq::empty(),
    }
}

/// The state, and what each call handed over, after a series of calls from the
/// initial state. Each call is a pick (`Some((uri, data))`) or a collection (`None`);
/// a pick hands over nothing.
pub open spec fn replay(calls: Seq<Option<(Seq<char>, Seq<u8>)>>) -> (SafView, Seq<Option<Seq<u8>>>)
    decreases calls.len(),
{
    if calls.len() == 0 {
        (initial_state(), Seq::empty())
    } else {
        let (state, out) = replay(calls.drop_last());
        match calls.last() {
            Some((uri, data)) => (after_pick(state, uri, data), out.push(None)),
            None => {
                let (next, got) = collect(state);
                (next, out.push(got))
            },
        }
    }
}

/// In any series of picks and collections from the initial state (the shell runs
/// them one at a time): every state reached has a whole waiting pick; a pick is
/// waiting exactly when the latest call was a pick; and a collection hands over
/// contents exactly when the call just before it was a pick, and then it hands over
/// that pick's contents. So every delivered value is the data of an earlier pick,
/// and the data of one pick is delivered at most once.
pub proof fn replay_delivers_each_pick_once(calls: Seq<Option<(Seq<char>, Seq<u8>)>>)
    ensures
        replay(calls).1.len() == calls.len(),
        saf_wf(replay(calls).0),
        replay(calls).0.0 <==> (calls.len() > 0 && calls.last() is Some),
        replay(calls).0.0 ==> replay(calls).0.2 == Some(picked_data(calls.last())),
        forall|j: int|
            0 <= j < calls.len() ==> #[trigger] replay(calls).1[j] == (if calls[j] is None && j > 0
                && calls[j - 1] is Some {
                Some(picked_data(calls[j - 1]))
            } else {
                None
            }),
    decreases calls.len(),
{
    if calls.len() > 0 {
        let init = calls.drop_last();
        replay_delivers_each_pick_once(init);
        let out = replay(init).1;
        let all = replay(calls).1;
        assert forall|j: int| 0 <= j < calls.len() implies #[trigger] all[j] == (if calls[j] is None
            && j > 0 && calls[j - 1] is Some {
            Some(picked_data(calls[j - 1]))
        } else {
            None
        }) by {
            if j < calls.len() - 1 {
                assert(all[j] == out[j]);
                assert(init[j] == calls[j]);
                if j > 0 {
                    assert(init[j - 1] == calls[j - 1]);
                }
            } else if calls.len() > 1 {
                assert(init.last() == calls[j - 1]);
            }
        }
    }
}

/// A pick records its own name and contents whatever came before: the state after a
/// pick is the same from any earlier state, a pick is waiting, its name is `uri`, and
/// collecting it hands over `data` and keeps the name `uri`.
pub proof fn pick_records_its_name(before: SafView, other: SafView, uri: Seq<char>, data: Seq<u8>)
    ensures
        after_pick(before, uri, data) == after_pick(other, uri, data),
        after_pick(before, uri, data).0,
        after_pick(before, uri, data).1 == Some(uri),
        after_pick(before, uri, data).2 == Some(data),
        collect(after_pick(before, uri, data)).0.1 == Some(uri),
        collect(after_pick(before, uri, data)).1 == Some(data),
{
}

} // verus!
