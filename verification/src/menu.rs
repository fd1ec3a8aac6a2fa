//! The interactive single-select menu: the cursor's walk over a key
//! sequence, the saturation laws it obeys, and the session driver that runs
//! one full interaction against a terminal device double — entering raw
//! mode, repainting after every key, and restoring the terminal on every
//! exit path.

use vstd::prelude::*;
use vstd::slice::slice_index_get;

use crate::keys::Key;
use crate::keys::is_exit_key;
use crate::keys::key_exits;
use crate::keys::next_index;
use crate::keys::step_index;
use crate::options::OptionItem;
use crate::options::labels_of;
use crate::render::esc_hide_cursor;
use crate::render::frame_of;
use crate::render::render_frame;
use crate::term::MenuError;
use crate::term::TermDouble;
use crate::term::spec_budget_minus;

verus! {

/// The cursor index after the whole key sequence `ks`, starting from 0,
/// over a list of `len` options.
pub open spec fn index_after(len: int, ks: Seq<Key>) -> int
    decreases ks.len(),
{
    if ks.len() == 0 {
        0
    } else {
        next_index(index_after(len, ks.drop_last()), len, ks.last())
    }
}

/// The position of the first loop-ending key in `ks`, or `ks.len()` if no
/// key ends the loop.
pub open spec fn first_exit(ks: Seq<Key>) -> int
    decreases ks.len(),
{
    if ks.len() == 0 {
        0
    } else if key_exits(ks[0]) {
        0
    } else {
        1 + first_exit(ks.drop_first())
    }
}

/// The index the menu returns for the key sequence `ks`: the cursor's
/// position at the moment the first loop-ending key is pressed.
pub open spec fn selected_index(len: int, ks: Seq<Key>) -> int {
    index_after(len, ks.take(first_exit(ks)))
}

/// Before the first key, the cursor is at index 0.
pub proof fn lemma_initial_index(len: int)
    ensures
        index_after(len, Seq::<Key>::empty()) == 0,
{
}

/// Over a non-empty list the cursor never leaves `[0, len - 1]`.
pub proof fn lemma_index_in_range(len: int, ks: Seq<Key>)
    requires
        len >= 1,
    ensures
        0 <= index_after(len, ks) < len,
    decreases ks.len(),
{
    if ks.len() > 0 {
        lemma_index_in_range(len, ks.drop_last());
    }
}

/// `first_exit` points at the first loop-ending key: it is within bounds,
/// no earlier key ends the loop, and the key there (if any) does.
pub proof fn lemma_first_exit(ks: Seq<Key>)
    ensures
        0 <= first_exit(ks) <= ks.len(),
        forall|j: int| 0 <= j < first_exit(ks) ==> !key_exits(ks[j]),
        first_exit(ks) < ks.len() ==> key_exits(ks[first_exit(ks)]),
    decreases ks.len(),
{
    if ks.len() > 0 && !key_exits(ks[0]) {
        lemma_first_exit(ks.drop_first());
        assert forall|j: int| 0 <= j < first_exit(ks) implies !key_exits(ks[j]) by {
            if j > 0 {
                assert(!key_exits(ks.drop_first()[j - 1]));
            }
        }
    }
}

/// If the first `i` keys do not end the loop, the first exit lies at `i` or
/// later; and exactly at `i` when the key there ends the loop.
pub proof fn lemma_first_exit_of_prefix(ks: Seq<Key>, i: int)
    requires
        0 <= i <= ks.len(),
        forall|j: int| 0 <= j < i ==> !key_exits(ks[j]),
    ensures
        first_exit(ks) >= i,
        i < ks.len() && key_exits(ks[i]) ==> first_exit(ks) == i,
    decreases i,
{
    if i > 0 {
        let ds = ks.drop_first();
        assert(!key_exits(ks[0]));
        assert forall|j: int| 0 <= j < i - 1 implies !key_exits(ds[j]) by {
            assert(ds[j] == ks[j + 1]);
        }
        lemma_first_exit_of_prefix(ds, i - 1);
        assert(first_exit(ks) == 1 + first_exit(ds));
        if i < ks.len() && key_exits(ks[i]) {
            assert(ds[i - 1] == ks[i]);
        }
    } else {
        lemma_first_exit(ks);
        if i < ks.len() && key_exits(ks[i]) {
            assert(first_exit(ks) == 0);
        }
    }
}

/// Processing one more key moves the cursor by one [`next_index`] step.
pub proof fn lemma_index_after_step(len: int, ks: Seq<Key>, i: int)
    requires
        0 <= i < ks.len(),
    ensures
        index_after(len, ks.take(i + 1)) == next_index(index_after(len, ks.take(i)), len, ks[i]),
{
    assert(ks.take(i + 1).drop_last() =~= ks.take(i));
    assert(ks.take(i + 1).last() == ks[i]);
}

/// Down keys alone never move the cursor backward, and never past the last
/// option: along the whole walk the index is non-decreasing, stays in
/// range, and saturates at `len - 1` instead of wrapping to 0.
pub proof fn lemma_down_saturates(len: int, ks: Seq<Key>, m: int, n: int)
    requires
        len >= 1,
        forall|j: int| 0 <= j < ks.len() ==> ks[j] is Down,
        0 <= m <= n <= ks.len(),
    ensures
        index_after(len, ks.take(m)) <= index_after(len, ks.take(n)),
        0 <= index_after(len, ks.take(n)) <= len - 1,
        index_after(len, ks) <= len - 1,
    decreases n - m,
{
    lemma_index_in_range(len, ks);
    lemma_index_in_range(len, ks.take(n));
    if m < n {
        lemma_down_saturates(len, ks, m, n - 1);
        lemma_index_after_step(len, ks, n - 1);
    }
}

/// Up keys alone never move the cursor forward, and never below the first
/// option: along the whole walk the index is non-increasing, stays in
/// range, and saturates at 0 instead of wrapping to `len - 1`.
pub proof fn lemma_up_saturates(len: int, ks: Seq<Key>, m: int, n: int)
    requires
        len >= 1,
        forall|j: int| 0 <= j < ks.len() ==> ks[j] is Up,
        0 <= m <= n <= ks.len(),
    ensures
        index_after(len, ks.take(m)) >= index_after(len, ks.take(n)),
        0 <= index_after(len, ks.take(n)) <= len - 1,
        index_after(len, ks) >= 0,
    decreases n - m,
{
    lemma_index_in_range(len, ks);
    lemma_index_in_range(len, ks.take(n));
    if m < n {
        lemma_up_saturates(len, ks, m, n - 1);
        lemma_index_after_step(len, ks, n - 1);
    }
}

/// How many writes a full session makes: hiding the cursor, the initial
/// frame, and one repaint per key before the first loop-ending one.
pub open spec fn needed_writes(ks: Seq<Key>) -> int {
    2 + first_exit(ks)
}

/// The budget `b` admits `n` writes.
pub open spec fn budget_allows(b: Option<usize>, n: int) -> bool {
    match b {
        None => true,
        Some(k) => n <= k,
    }
}

/// How many of `n` attempted writes the budget `b` lets succeed.
pub open spec fn done_writes(b: Option<usize>, n: int) -> int {
    match b {
        None => n,
        Some(k) => if n <= k {
            n
        } else {
            k as int
        },
    }
}

/// The `n`-th write of a session (0-based): first the hide-cursor escape,
/// then the frame showing the cursor after the first `n - 1` keys.
pub open spec fn nth_write(q: Seq<char>, labels: Seq<Seq<char>>, ks: Seq<Key>, n: int) -> Seq<
    char,
> {
    if n == 0 {
        esc_hide_cursor()
    } else {
        frame_of(q, labels, labels[index_after(labels.len() as int, ks.take(n - 1))])
    }
}

/// Everything a session has written after its first `n` writes.
pub open spec fn writes_prefix(q: Seq<char>, labels: Seq<Seq<char>>, ks: Seq<Key>, n: int) -> Seq<
    char,
>
    decreases n,
{
    if n <= 0 {
        Seq::empty()
    } else {
        writes_prefix(q, labels, ks, n - 1) + nth_write(q, labels, ks, n - 1)
    }
}

/// One more write extends the session's output by the next [`nth_write`].
pub proof fn lemma_writes_prefix_unfold(q: Seq<char>, labels: Seq<Seq<char>>, ks: Seq<Key>, n: int)
    requires
        n >= 0,
    ensures
        writes_prefix(q, labels, ks, n + 1) == writes_prefix(q, labels, ks, n) + nth_write(
            q,
            labels,
            ks,
            n,
        ),
{
}

/// How many keys a session that got `succ` successful writes has applied to
/// the cursor: one per repaint after the initial frame, and never more than
/// the keys before the first loop-ending one.
pub open spec fn stepped_keys(ks: Seq<Key>, succ: int) -> int {
    let p = first_exit(ks);
    if succ - 1 <= 0 {
        0
    } else if succ - 1 <= p {
        succ - 1
    } else {
        p
    }
}

/// The menu component. It remembers the label of the currently highlighted
/// option between repaints.
pub struct TerminalUI {
    current_option: Option<String>,
}

impl TerminalUI {
    /// The label the menu currently highlights, if an interaction has
    /// started.
    pub closed spec fn spec_current_option(self) -> Option<Seq<char>> {
        match self.current_option {
            Some(s) => Some(s@),
            None => None,
        }
    }

    /// A fresh menu with no highlighted option yet.
    pub fn new() -> (r: Self)
        ensures
            r.spec_current_option() is None,
    {
        TerminalUI { current_option: None }
    }

    /// Run one full interaction over the scripted terminal `term`: reject an
    /// empty option list before touching the terminal, enter raw mode, hide
    /// the cursor, paint the initial frame, then repaint after every key
    /// until a loop-ending key confirms the highlighted option, the keys run
    /// out, or a write fails. On every path that entered raw mode the
    /// terminal is restored — raw mode left and cursor shown — before the
    /// call returns. A cancelling key returns the highlighted item exactly
    /// as a confirming one does; that this is what cancellation should mean
    /// is a documented open question, not an accident.
    pub fn ask_single_option<'a, T>(
        &mut self,
        term: &mut TermDouble,
        question: &str,
        options: &'a [OptionItem<T>],
        keys: &[Key],
    ) -> (r: Result<&'a OptionItem<T>, MenuError>)
        requires
            !old(term).raw_mode,
            !old(term).cursor_hidden,
        ensures
            !final(term).raw_mode,
            !final(term).cursor_hidden,
            final(term).raw_available == old(term).raw_available,
            (r matches Err(e) && e == MenuError::InvalidArgument) <==> options@.len() == 0,
            options@.len() == 0 ==> *final(term) == *old(term) && *final(self) == *old(self),
            (r matches Err(e) && e == MenuError::TerminalUnavailable) <==> (options@.len() > 0
                && !old(term).raw_available),
            options@.len() > 0 && !old(term).raw_available ==> final(term).out == old(term).out
                && final(term).writes_left == old(term).writes_left
                && final(self).spec_current_option() == Some(labels_of(options@)[0]),
            options@.len() > 0 && old(term).raw_available ==> ({
                let ks = keys@;
                let lbs = labels_of(options@);
                let need = needed_writes(ks);
                let succ = done_writes(old(term).writes_left, need);
                &&& final(term).out@ == old(term).out@ + writes_prefix(question@, lbs, ks, succ)
                &&& final(term).writes_left == spec_budget_minus(old(term).writes_left, succ)
                &&& (r is Ok <==> (first_exit(ks) < ks.len() && budget_allows(
                    old(term).writes_left,
                    need,
                )))
                &&& (r matches Ok(item) ==> *item == options@[selected_index(
                    options@.len() as int,
                    ks,
                )])
                &&& ((r matches Err(e) && e == MenuError::WriteFailure) <==> !budget_allows(
                    old(term).writes_left,
                    need,
                ))
                &&& ((r matches Err(e) && e == MenuError::InputClosed) <==> (budget_allows(
                    old(term).writes_left,
                    need,
                ) && first_exit(ks) == ks.len()))
                &&& final(self).spec_current_option() == Some(
                    lbs[index_after(options@.len() as int, ks.take(stepped_keys(ks, succ)))],
                )
            }),
    {
        let n: usize = options.len();
        if n == 0 {
            return Err(MenuError::InvalidArgument);
        }
        let ghost lbs = labels_of(options@);
        let ghost ks = keys@;
        let ghost b0 = term.writes_left;
        let ghost out0 = term.out@;
        proof {
            lemma_first_exit(ks);
            assert(lbs[0] == options@[0].name@);
            assert(ks.take(0) =~= Seq::<Key>::empty());
        }
        let first = slice_index_get(options, 0);
        let mut sel: String = first.name.clone();
        self.current_option = Some(first.name.clone());
        match term.enter_raw_mode() {
            Ok(_) => {},
            Err(e) => {
                return Err(e);
            },
        }
        match term.hide_cursor() {
            Ok(_) => {},
            Err(e) => {
                term.restore();
                proof {
                    assert(b0 == Some(0usize));
                    assert(term.out@ =~= out0 + writes_prefix(question@, lbs, ks, 0));
                    assert(done_writes(b0, needed_writes(ks)) == 0);
                    assert(term.writes_left == spec_budget_minus(b0, 0));
                }
                return Err(e);
            },
        }
        let frame0 = render_frame(question, options, &sel);
        proof {
            lemma_writes_prefix_unfold(question@, lbs, ks, 0);
            lemma_writes_prefix_unfold(question@, lbs, ks, 1);
            assert(writes_prefix(question@, lbs, ks, 0) =~= Seq::<char>::empty());
            assert(lbs.len() == options@.len());
            assert(frame0@ == nth_write(question@, lbs, ks, 1));
        }
        match term.write_str(frame0.as_str()) {
            Ok(_) => {},
            Err(e) => {
                term.restore();
                proof {
                    assert(b0 == Some(1usize));
                    assert(term.out@ =~= out0 + writes_prefix(question@, lbs, ks, 1));
                    assert(done_writes(b0, needed_writes(ks)) == 1);
                }
                return Err(e);
            },
        }
        proof {
            assert(term.out@ =~= out0 + writes_prefix(question@, lbs, ks, 2));
            assert(term.writes_left == spec_budget_minus(b0, 2));
            assert(budget_allows(b0, 2));
        }
        let klen: usize = keys.len();
        let mut idx: usize = 0;
        let mut i: usize = 0;
        while i < klen
            invariant
                n == options@.len(),
                n > 0,
                ks == keys@,
                klen == ks.len(),
                lbs == labels_of(options@),
                lbs.len() == n,
                b0 == old(term).writes_left,
                out0 == old(term).out@,
                old(term).raw_available,
                i <= klen,
                idx < n,
                idx == index_after(n as int, ks.take(i as int)),
                forall|j: int| 0 <= j < i ==> !key_exits(ks[j]),
                term.raw_mode,
                term.cursor_hidden,
                term.raw_available,
                term.out@ == out0 + writes_prefix(question@, lbs, ks, 2 + i as int),
                term.writes_left == spec_budget_minus(b0, 2 + i as int),
                budget_allows(b0, 2 + i as int),
                sel@ == lbs[idx as int],
                self.spec_current_option() == Some(lbs[idx as int]),
            decreases klen - i,
        {
            let k = *slice_index_get(keys, i);
            if is_exit_key(k) {
                proof {
                    lemma_first_exit_of_prefix(ks, i as int);
                    assert(first_exit(ks) == i);
                    assert(done_writes(b0, needed_writes(ks)) == 2 + i);
                    assert(ks.take(first_exit(ks)) == ks.take(i as int));
                    assert(stepped_keys(ks, 2 + i as int) == i);
                }
                term.restore();
                let item = slice_index_get(options, idx);
                return Ok(item);
            }
            proof {
                assert(k == ks[i as int]);
                assert(forall|j: int| 0 <= j < i + 1 ==> !key_exits(ks[j]));
                lemma_first_exit_of_prefix(ks, i + 1);
            }
            idx = step_index(idx, n, k);
            let opt = slice_index_get(options, idx);
            sel = opt.name.clone();
            self.current_option = Some(opt.name.clone());
            proof {
                lemma_index_after_step(n as int, ks, i as int);
                assert(lbs[idx as int] == options@[idx as int].name@);
            }
            let frame = render_frame(question, options, &sel);
            match term.write_str(frame.as_str()) {
                Ok(_) => {},
                Err(e) => {
                    term.restore();
                    proof {
                        assert(b0 == Some((2 + i) as usize));
                        assert(needed_writes(ks) >= 3 + i);
                        assert(done_writes(b0, needed_writes(ks)) == 2 + i);
                        assert(stepped_keys(ks, 2 + i as int) == i + 1);
                    }
                    return Err(e);
                },
            }
            proof {
                lemma_writes_prefix_unfold(question@, lbs, ks, 2 + i as int);
                assert(frame@ == nth_write(question@, lbs, ks, 2 + i as int));
                assert(term.out@ =~= out0 + writes_prefix(question@, lbs, ks, 2 + (i + 1) as int));
            }
            i = i + 1;
        }
        proof {
            lemma_first_exit_of_prefix(ks, klen as int);
            assert(first_exit(ks) == klen);
            assert(done_writes(b0, needed_writes(ks)) == 2 + klen);
            assert(stepped_keys(ks, 2 + klen as int) == klen);
            assert(ks.take(klen as int) =~= ks);
        }
        term.restore();
        Err(MenuError::InputClosed)
    }
}

} // verus!
