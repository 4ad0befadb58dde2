use vstd::prelude::*;

use std::collections::VecDeque;

verus! {

/// The most lines a viewer made with `max_lines` holds: `max_lines`, and at least one,
/// since a new line always goes in.
pub open spec fn capacity(max_lines: nat) -> nat {
    if max_lines == 0 {
        1
    } else {
        max_lines
    }
}

/// The lines after adding `msg` to `lines`: the oldest line goes first when there are
/// already `max_lines` or more of them.
pub open spec fn after_add(lines: Seq<Seq<char>>, msg: Seq<char>, max_lines: nat) -> Seq<
    Seq<char>,
> {
    let kept = if lines.len() >= max_lines && lines.len() > 0 {
        lines.drop_first()
    } else {
        lines
    };
    kept.push(msg)
}

/// The newest lines of `history`, as many as the viewer holds, oldest first.
pub open spec fn latest(history: Seq<Seq<char>>, max_lines: nat) -> Seq<Seq<char>> {
    if history.len() <= capacity(max_lines) {
        history
    } else {
        history.skip(history.len() - capacity(max_lines))
    }
}

/// A bounded list of log lines: the newest `max_lines` of them, oldest first.
pub struct LogViewer {
    messages: VecDeque<String>,
    max_lines: usize,
}

impl View for LogViewer {
    /// The lines held, oldest first, and the limit the viewer was made with.
    type V = (Seq<Seq<char>>, nat);

    closed spec fn view(&self) -> (Seq<Seq<char>>, nat) {
        (self.messages@.map_values(|m: String| m@), self.max_lines as nat)
    }
}

impl LogViewer {
    #[verifier::type_invariant]
    closed spec fn bounded(&self) -> bool {
        self.messages@.len() <= capacity(self.max_lines as nat)
    }

    /// An empty viewer that keeps at most `max_lines` lines (one, where `max_lines` is 0).
    pub fn new(max_lines: usize) -> (viewer: LogViewer)
        ensures
            viewer@.0 == Seq::<Seq<char>>::empty(),
            viewer@.1 == max_lines,
    {
        let viewer = LogViewer { messages: VecDeque::with_capacity(max_lines), max_lines };
        assert(viewer@.0 =~= Seq::<Seq<char>>::empty());
        viewer
    }

    /// Appends `msg`, first dropping the oldest line when `max_lines` lines or more are held.
    pub fn add(&mut self, msg: String)
        ensures
            final(self)@.1 == old(self)@.1,
            final(self)@.0 == after_add(old(self)@.0, msg@, old(self)@.1),
            final(self)@.0.len() <= capacity(final(self)@.1),
    {
        proof {
            use_type_invariant(&*self);
        }
        let ghost before = self@.0;
        let mut messages = VecDeque::new();
        std::mem::swap(&mut messages, &mut self.messages);
        if messages.len() >= self.max_lines {
            let _ = messages.pop_front();
        }
        let ghost mid = messages@;
        messages.push_back(msg);
        proof {
            assert(messages@ == mid.push(msg));
            assert(messages@.map_values(|m: String| m@) =~= after_add(
                before,
                msg@,
                self.max_lines as nat,
            ));
        }
        self.messages = messages;
    }

    /// The number of lines held.
    pub fn len(&self) -> (n: usize)
        ensures
            n == self@.0.len(),
    {
        self.messages.len()
    }

    /// The line at `index`, counting from the oldest.
    pub fn message(&self, index: usize) -> (m: &String)
        requires
            index < self@.0.len(),
        ensures
            m@ == self@.0[index as int],
    {
        &self.messages[index]
    }

    /// The limit the viewer was made with.
    pub fn max_lines(&self) -> (n: usize)
        ensures
            n == self@.1,
    {
        self.max_lines
    }
}

/// The viewer never holds more than its capacity: whatever it held, adding a line
/// leaves at most `capacity(max_lines)` lines when there were at most that many.
pub proof fn add_stays_bounded(lines: Seq<Seq<char>>, msg: Seq<char>, max_lines: nat)
    requires
        lines.len() <= capacity(max_lines),
    ensures
        after_add(lines, msg, max_lines).len() <= capacity(max_lines),
{
}

/// A viewer holds the newest lines of everything added to it: if it holds the
/// newest lines of `history`, then after adding `msg` it holds the newest lines
/// of `history` followed by `msg`.
pub proof fn add_keeps_latest(history: Seq<Seq<char>>, msg: Seq<char>, max_lines: nat)
    ensures
        after_add(latest(history, max_lines), msg, max_lines) == latest(
            history.push(msg),
            max_lines,
        ),
{
    let c = capacity(max_lines);
    let n = history.len();
    let h2 = history.push(msg);
    if n < c {
        assert(after_add(latest(history, max_lines), msg, max_lines) =~= h2);
    } else {
        let kept = latest(history, max_lines);
        assert(kept.len() == c);
        assert(kept.drop_first().push(msg) =~= h2.skip(h2.len() - c));
    }
}

/// The lines of a new viewer made with `max_lines` after `history` was added to it,
/// one line after another.
pub open spec fn added_lines(history: Seq<Seq<char>>, max_lines: nat) -> Seq<Seq<char>>
    decreases history.len(),
{
    if history.len() == 0 {
        Seq::empty()
    } else {
        after_add(added_lines(history.drop_last(), max_lines), history.last(), max_lines)
    }
}

/// A new viewer to which `history` was added holds the newest `capacity(max_lines)`
/// lines of `history`, oldest first: the oldest line is always the one dropped.
pub proof fn adds_hold_latest(history: Seq<Seq<char>>, max_lines: nat)
    ensures
        added_lines(history, max_lines) == latest(history, max_lines),
        added_lines(history, max_lines).len() == if history.len() <= capacity(max_lines) {
            history.len()
        } else {
            capacity(max_lines)
        },
    decreases history.len(),
{
    if history.len() > 0 {
        let init = history.drop_last();
        adds_hold_latest(init, max_lines);
        add_keeps_latest(init, history.last(), max_lines);
        assert(init.push(history.last()) =~= history);
    }
}

} // verus!
