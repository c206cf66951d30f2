//! The display objects a chat window keeps per message part (a reasoning
//! block, a rendered markdown view), and how they follow the messages as
//! these change: a grid of optional objects, and the per-message sync that
//! keeps, refreshes, creates and drops them.

use vstd::prelude::*;
use crate::chat::{markdown_refresh, markdown_step, MarkdownUpdate};
use crate::chat_window::MessagePart;
use crate::message_layout::PartState;
use crate::reasoning::Reasoning;
use crate::text::{decimal, push_decimal, string_of};

verus! {

/// One optional display object per part of each message.
pub struct SlotGrid<T> {
    pub rows: Vec<Vec<Option<T>>>,
}

/// The object in slot (`m`, `p`); none for a slot that does not exist.
pub open spec fn slot_of<T>(rows: Seq<Vec<Option<T>>>, m: int, p: int) -> Option<T> {
    if 0 <= m < rows.len() && 0 <= p < rows[m]@.len() { rows[m]@[p] } else { None }
}

/// Whether part `p` of message `m` calls for a display object.
pub open spec fn wanted_at(wanted: Seq<Vec<bool>>, m: int, p: int) -> bool {
    0 <= m < wanted.len() && 0 <= p < wanted[m]@.len() && wanted[m]@[p]
}

/// The parts of message `m` before `k` that call for an object, in order,
/// each with whether it had one in `old_row`.
pub open spec fn row_entries<T>(m: int, wanted_row: Seq<bool>, old_row: Seq<Option<T>>, k: int) -> Seq<(usize, usize, bool)>
    decreases k,
{
    if k <= 0 {
        Seq::empty()
    } else {
        let r = row_entries(m, wanted_row, old_row, k - 1);
        let p = k - 1;
        if wanted_row[p] {
            r.push((m as usize, p as usize, p < old_row.len() && old_row[p] is Some))
        } else {
            r
        }
    }
}

/// The row of message `m` in `rows`, empty when there is none.
pub open spec fn row_at<T>(rows: Seq<Vec<Option<T>>>, m: int) -> Seq<Option<T>> {
    if 0 <= m < rows.len() { rows[m]@ } else { Seq::empty() }
}

/// The parts of the messages before `k` that call for an object, in order,
/// each with whether it had one in `old`.
pub open spec fn grid_entries<T>(wanted: Seq<Vec<bool>>, old: Seq<Vec<Option<T>>>, k: int) -> Seq<(usize, usize, bool)>
    decreases k,
{
    if k <= 0 {
        Seq::empty()
    } else {
        grid_entries(wanted, old, k - 1)
            + row_entries(k - 1, wanted[k - 1]@, row_at(old, k - 1), wanted[k - 1]@.len() as int)
    }
}

impl<T> SlotGrid<T> {
    /// No objects.
    pub fn new() -> (r: Self)
        ensures
            r.rows@.len() == 0,
    {
        SlotGrid { rows: Vec::new() }
    }

    /// The object of part `p` of message `m`.
    pub fn get(&self, m: usize, p: usize) -> (r: Option<&T>)
        ensures
            match r {
                Some(x) => slot_of(self.rows@, m as int, p as int) == Some(*x),
                None => slot_of(self.rows@, m as int, p as int) is None,
            },
    {
        if m < self.rows.len() && p < self.rows[m].len() {
            match &self.rows[m][p] {
                Some(x) => Some(x),
                None => None,
            }
        } else {
            None
        }
    }

    /// Stores `x` as the object of an existing slot.
    pub fn put(&mut self, m: usize, p: usize, x: T)
        requires
            m < old(self).rows@.len(),
            p < old(self).rows@[m as int]@.len(),
        ensures
            forall|i: int, j: int| #[trigger] slot_of(final(self).rows@, i, j)
                == if i == m && j == p { Some(x) } else { slot_of(old(self).rows@, i, j) },
            final(self).rows@.len() == old(self).rows@.len(),
            forall|i: int| 0 <= i < final(self).rows@.len() ==> #[trigger] final(self).rows@[i]@.len() == old(self).rows@[i]@.len(),
    {
        let mut row = self.rows.remove(m);
        let ghost old_row = row@;
        row.set(p, Some(x));
        self.rows.insert(m, row);
        assert forall|i: int, j: int| #[trigger] slot_of(self.rows@, i, j)
            == if i == m && j == p { Some(x) } else { slot_of(old(self).rows@, i, j) } by {
            if 0 <= i < self.rows@.len() && i != m {
                assert(self.rows@[i] == old(self).rows@[i]);
            }
        }
        assert forall|i: int| 0 <= i < self.rows@.len() implies #[trigger] self.rows@[i]@.len() == old(self).rows@[i]@.len() by {
            if i != m {
                assert(self.rows@[i] == old(self).rows@[i]);
            }
        }
    }

    /// Follows the messages: `wanted[m][p]` tells whether part `p` of message
    /// `m` calls for an object. Afterwards every part has a slot; a part that
    /// calls for an object keeps the one it had, every other slot is empty.
    /// Returns the parts that call for an object, in order, each with
    /// whether it already had one (to be updated) or not (to be created).
    pub fn sync(&mut self, wanted: &Vec<Vec<bool>>) -> (r: Vec<(usize, usize, bool)>)
        ensures
            final(self).rows@.len() == wanted@.len(),
            forall|m: int| 0 <= m < wanted@.len() ==> #[trigger] final(self).rows@[m]@.len() == wanted@[m]@.len(),
            forall|m: int, p: int| #[trigger] slot_of(final(self).rows@, m, p)
                == if wanted_at(wanted@, m, p) { slot_of(old(self).rows@, m, p) } else { None },
            r@ == grid_entries(wanted@, old(self).rows@, wanted@.len() as int),
    {
        let ghost orig = self.rows@;
        let mut old_rows: Vec<Vec<Option<T>>> = Vec::new();
        std::mem::swap(&mut old_rows, &mut self.rows);
        let mut new_rows: Vec<Vec<Option<T>>> = Vec::new();
        let mut out: Vec<(usize, usize, bool)> = Vec::new();
        let n = wanted.len();
        let mut m: usize = 0;
        while m < n
            invariant
                m <= n,
                n == wanted@.len(),
                old_rows@ == if m <= orig.len() { orig.skip(m as int) } else { Seq::empty() },
                new_rows@.len() == m,
                forall|i: int| 0 <= i < m ==> #[trigger] new_rows@[i]@.len() == wanted@[i]@.len(),
                forall|i: int, j: int| 0 <= i < m ==> #[trigger] slot_of(new_rows@, i, j)
                    == if wanted_at(wanted@, i, j) { slot_of(orig, i, j) } else { None },
                out@ == grid_entries(wanted@, orig, m as int),
            decreases n - m,
        {
            let ghost orig_row = row_at(orig, m as int);
            let mut old_row: Vec<Option<T>> = if old_rows.len() > 0 {
                old_rows.remove(0)
            } else {
                Vec::new()
            };
            proof {
                if m < orig.len() {
                    assert(orig.skip(m + 1) =~= orig.skip(m as int).drop_first());
                } else {
                    assert(old_rows@ =~= Seq::<Vec<Option<T>>>::empty());
                }
            }
            assert(old_row@ == orig_row);
            let wrow = &wanted[m];
            let k = wrow.len();
            let mut row: Vec<Option<T>> = Vec::new();
            let ghost out_before = out@;
            let mut p: usize = 0;
            while p < k
                invariant
                    p <= k,
                    k == wrow@.len(),
                    wrow == wanted@[m as int],
                    old_row@ == if p <= orig_row.len() { orig_row.skip(p as int) } else { Seq::empty() },
                    row@.len() == p,
                    forall|j: int| 0 <= j < p ==> #[trigger] row@[j]
                        == if wrow@[j] { if j < orig_row.len() { orig_row[j] } else { None } } else { None },
                    out@ == out_before + row_entries(m as int, wrow@, orig_row, p as int),
                decreases k - p,
            {
                let v: Option<T> = if old_row.len() > 0 { old_row.remove(0) } else { None };
                proof {
                    if p < orig_row.len() {
                        assert(v == orig_row[p as int]);
                        assert(orig_row.skip(p + 1) =~= orig_row.skip(p as int).drop_first());
                    } else {
                        assert(old_row@ =~= Seq::<Option<T>>::empty());
                    }
                }
                if wrow[p] {
                    out.push((m, p, v.is_some()));
                    row.push(v);
                } else {
                    row.push(None);
                }
                p = p + 1;
            }
            proof {
                assert(grid_entries(wanted@, orig, m + 1)
                    == grid_entries(wanted@, orig, m as int) + row_entries(m as int, wanted@[m as int]@, orig_row, k as int));
            }
            let ghost before_rows = new_rows@;
            new_rows.push(row);
            proof {
                assert forall|i: int, j: int| 0 <= i < m + 1 implies #[trigger] slot_of(new_rows@, i, j)
                    == if wanted_at(wanted@, i, j) { slot_of(orig, i, j) } else { None } by {
                    if i < m {
                        assert(new_rows@[i] == before_rows[i]);
                        assert(slot_of(new_rows@, i, j) == slot_of(before_rows, i, j));
                    } else {
                        assert(new_rows@[i]@ == row@);
                    }
                }
                assert forall|i: int| 0 <= i < m + 1 implies #[trigger] new_rows@[i]@.len() == wanted@[i]@.len() by {
                    if i < m {
                        assert(new_rows@[i] == before_rows[i]);
                    }
                }
            }
            m = m + 1;
        }
        self.rows = new_rows;
        proof {
            assert forall|i: int, j: int| #[trigger] slot_of(self.rows@, i, j)
                == if wanted_at(wanted@, i, j) { slot_of(orig, i, j) } else { None } by {
                if !(0 <= i < n) {
                    assert(!wanted_at(wanted@, i, j));
                }
            }
        }
        out
    }
}


/// The first `n` rows of `rows` (all of them when there are fewer).
pub open spec fn kept_rows<T>(rows: Seq<T>, n: int) -> Seq<T> {
    if n < rows.len() { rows.subrange(0, n) } else { rows }
}

/// The id of the reasoning block of part `p` of message `m`: `m-p`.
pub open spec fn reasoning_id(m: nat, p: nat) -> Seq<char> {
    decimal(m) + seq!['-'] + decimal(p)
}

/// Whether `new` is the reasoning block that `part` (part `p` of message
/// `m`) has after a sync, given the block `old` it had: a reasoning part
/// has a block showing its text and state, which keeps the id and the fold
/// of the block it had, or is a new folded block; any other part has none.
pub open spec fn reasoning_synced(new: Option<Reasoning>, old: Option<Reasoning>, m: int, p: int, part: MessagePart) -> bool {
    match part {
        MessagePart::Reasoning { text, state } => new matches Some(e) && e.content == text && e.state == state
            && match old {
                Some(o) => e.id == o.id && e.collapsed == o.collapsed,
                None => e.id@ == reasoning_id(m as nat, p as nat) && e.collapsed,
            },
        _ => new is None,
    }
}

/// Whether `new` is the markdown view (the text it shows) that `part` has
/// after a sync: a text part of an assistant message that is not streaming
/// has one showing its text; a streaming one, whose text shows plain, and
/// any other part have none.
pub open spec fn markdown_synced(new: Option<String>, assistant: bool, part: MessagePart) -> bool {
    match part {
        MessagePart::Text { text, state } => if assistant && state != Some(PartState::Streaming) {
            new == Some(text)
        } else {
            new is None
        },
        _ => new is None,
    }
}

/// The markdown refreshes of the parts of message `m` before `k`, in
/// order: each text part of an assistant message is refreshed as
/// `markdown_refresh` says, given whether it had a view in `old_row`.
pub open spec fn markdown_row_plan(
    m: int,
    assistant: bool,
    parts: Seq<MessagePart>,
    old_row: Seq<Option<String>>,
    k: int,
) -> Seq<(usize, usize, MarkdownUpdate)>
    decreases k,
{
    if k <= 0 {
        Seq::empty()
    } else {
        let ups = markdown_row_plan(m, assistant, parts, old_row, k - 1);
        let p = k - 1;
        match parts[p] {
            MessagePart::Text { text, state } => if assistant {
                let has_view = p < old_row.len() && old_row[p] is Some;
                match markdown_refresh(has_view, state == Some(PartState::Streaming)) {
                    Some(u) => ups.push((m as usize, p as usize, u)),
                    None => ups,
                }
            } else {
                ups
            },
            _ => ups,
        }
    }
}

fn reasoning_id_string(m: usize, p: usize) -> (r: String)
    ensures
        r@ == reasoning_id(m as nat, p as nat),
{
    let mut v: Vec<char> = Vec::new();
    push_decimal(&mut v, m as u128);
    v.push('-');
    push_decimal(&mut v, p as u128);
    string_of(v.as_slice())
}

/// The reasoning blocks of the parts of message `m` after a sync, from the
/// blocks `old_row` it had.
pub fn sync_reasoning_row(m: usize, parts: &Vec<MessagePart>, old_row: Vec<Option<Reasoning>>) -> (r: Vec<Option<Reasoning>>)
    ensures
        r@.len() == parts@.len(),
        forall|p: int| 0 <= p < parts@.len() ==> reasoning_synced(
            #[trigger] r@[p],
            if p < old_row@.len() { old_row@[p] } else { None },
            m as int,
            p,
            parts@[p],
        ),
{
    let ghost orig = old_row@;
    let mut rest = old_row;
    let mut out: Vec<Option<Reasoning>> = Vec::new();
    let n = parts.len();
    let mut p: usize = 0;
    while p < n
        invariant
            p <= n,
            n == parts@.len(),
            rest@ == if p <= orig.len() { orig.skip(p as int) } else { Seq::empty() },
            out@.len() == p,
            forall|q: int| 0 <= q < p ==> reasoning_synced(
                #[trigger] out@[q],
                if q < orig.len() { orig[q] } else { None },
                m as int,
                q,
                parts@[q],
            ),
        decreases n - p,
    {
        let prev: Option<Reasoning> = if rest.len() > 0 {
            rest.remove(0)
        } else {
            None
        };
        proof {
            if p < orig.len() {
                assert(prev == orig[p as int]);
                assert(rest@ =~= orig.skip(p + 1));
            } else {
                assert(prev is None);
            }
        }
        let next: Option<Reasoning> = match &parts[p] {
            MessagePart::Reasoning { text, state } => match prev {
                Some(e) => {
                    let mut e = e;
                    e.set_content(text.clone(), *state);
                    Some(e)
                },
                None => Some(Reasoning::new(reasoning_id_string(m, p), text.clone(), *state)),
            },
            _ => None,
        };
        out.push(next);
        proof {
            assert forall|q: int| 0 <= q < p + 1 implies reasoning_synced(
                #[trigger] out@[q],
                if q < orig.len() { orig[q] } else { None },
                m as int,
                q,
                parts@[q],
            ) by {
            }
        }
        p = p + 1;
    }
    out
}

/// The markdown views of the parts of message `m` after a sync, from the
/// views `old_row` it had; the refreshes to make are appended to
/// `updates`.
pub fn sync_markdown_row(
    m: usize,
    assistant: bool,
    parts: &Vec<MessagePart>,
    old_row: Vec<Option<String>>,
    updates: &mut Vec<(usize, usize, MarkdownUpdate)>,
) -> (r: Vec<Option<String>>)
    ensures
        r@.len() == parts@.len(),
        forall|p: int| 0 <= p < parts@.len() ==> markdown_synced(#[trigger] r@[p], assistant, parts@[p]),
        final(updates)@ == old(updates)@ + markdown_row_plan(m as int, assistant, parts@, old_row@, parts@.len() as int),
{
    let ghost orig = old_row@;
    let ghost ups0 = updates@;
    let mut rest = old_row;
    let mut out: Vec<Option<String>> = Vec::new();
    let n = parts.len();
    let mut p: usize = 0;
    while p < n
        invariant
            p <= n,
            n == parts@.len(),
            rest@ == if p <= orig.len() { orig.skip(p as int) } else { Seq::empty() },
            out@.len() == p,
            forall|q: int| 0 <= q < p ==> markdown_synced(#[trigger] out@[q], assistant, parts@[q]),
            updates@ == ups0 + markdown_row_plan(m as int, assistant, parts@, orig, p as int),
        decreases n - p,
    {
        let prev: Option<String> = if rest.len() > 0 {
            rest.remove(0)
        } else {
            None
        };
        proof {
            if p < orig.len() {
                assert(prev == orig[p as int]);
                assert(rest@ =~= orig.skip(p + 1));
            } else {
                assert(prev is None);
            }
        }
        let next: Option<String> = match &parts[p] {
            MessagePart::Text { text, state } => if assistant {
                let streaming = match state {
                    Some(PartState::Streaming) => true,
                    _ => false,
                };
                match markdown_step(prev.is_some(), streaming) {
                    Some(u) => {
                        updates.push((m, p, u));
                        proof {
                            assert(updates@ =~= ups0 + markdown_row_plan(m as int, assistant, parts@, orig, p + 1));
                        }
                        Some(text.clone())
                    },
                    None => None,
                }
            } else {
                None
            },
            _ => None,
        };
        out.push(next);
        p = p + 1;
    }
    out
}

} // verus!
