//! How the parts of one chat message are laid out: each tool call is paired
//! with the tool result (or, failing that, the assistant text) that answers
//! it, and the message renders as a sequence of paired rows and single parts.

use vstd::prelude::*;

verus! {

/// The kind of one part of a chat message.
#[derive(Clone, Copy, PartialEq, Eq, Debug, Structural)]
pub enum PartKind {
    Text,
    Reasoning,
    ToolCall,
    ToolResult,
}

/// Where a message part is in its life: still arriving, or complete.
#[derive(Clone, Copy, PartialEq, Eq, Debug, Structural)]
pub enum PartState {
    Streaming,
    Done,
}

/// One row of a rendered message.
#[derive(Clone, Copy, PartialEq, Eq, Debug, Structural)]
pub enum LayoutItem {
    /// The tool call at `call` rendered together with its answer at `result`.
    Pair { call: usize, result: usize },
    /// The part at this index rendered on its own.
    Single(usize),
}

/// Which parts are taken by a pair, and the pairs in the order they formed.
pub struct PairState {
    pub paired: Seq<bool>,
    pub pairs: Seq<(usize, usize)>,
}

/// The first index `j >= k` whose part has kind `want` and is not paired yet.
pub open spec fn find_unpaired(kinds: Seq<PartKind>, paired: Seq<bool>, k: int, want: PartKind) -> Option<int>
    decreases kinds.len() - k,
{
    if k < 0 || k >= kinds.len() {
        None
    } else if kinds[k] == want && !paired[k] {
        Some(k)
    } else {
        find_unpaired(kinds, paired, k + 1, want)
    }
}

/// `st` with the call `i` paired to the answer `j`.
pub open spec fn mark_pair(st: PairState, i: int, j: int) -> PairState {
    PairState {
        paired: st.paired.update(i, true).update(j, true),
        pairs: st.pairs.push((i as usize, j as usize)),
    }
}

/// First pass, step `i`: an unpaired tool call takes the earliest unpaired
/// tool result after it.
pub open spec fn result_step(kinds: Seq<PartKind>, st: PairState, i: int) -> PairState {
    if kinds[i] == PartKind::ToolCall && !st.paired[i] {
        match find_unpaired(kinds, st.paired, i + 1, PartKind::ToolResult) {
            Some(j) => mark_pair(st, i, j),
            None => st,
        }
    } else {
        st
    }
}

/// Second pass, step `i`: a still unpaired tool call takes the earliest
/// unpaired text part after it, unless an unpaired tool result lies between.
pub open spec fn text_step(kinds: Seq<PartKind>, st: PairState, i: int) -> PairState {
    if kinds[i] == PartKind::ToolCall && !st.paired[i] {
        match find_unpaired(kinds, st.paired, i + 1, PartKind::Text) {
            Some(j) => {
                let between = match find_unpaired(kinds, st.paired, i + 1, PartKind::ToolResult) {
                    Some(k) => k < j,
                    None => false,
                };
                if between { st } else { mark_pair(st, i, j) }
            },
            None => st,
        }
    } else {
        st
    }
}

pub open spec fn initial_pair_state(n: nat) -> PairState {
    PairState { paired: Seq::new(n, |k: int| false), pairs: Seq::empty() }
}

/// The state after the first pass has looked at the parts before `i`.
pub open spec fn result_pass(kinds: Seq<PartKind>, i: nat) -> PairState
    decreases i,
{
    if i == 0 {
        initial_pair_state(kinds.len())
    } else {
        result_step(kinds, result_pass(kinds, (i - 1) as nat), i - 1)
    }
}

/// The state after the second pass has looked at the parts before `i`.
pub open spec fn text_pass(kinds: Seq<PartKind>, i: nat) -> PairState
    decreases i,
{
    if i == 0 {
        result_pass(kinds, kinds.len())
    } else {
        text_step(kinds, text_pass(kinds, (i - 1) as nat), i - 1)
    }
}

/// The pairing of a whole message.
pub open spec fn pairing(kinds: Seq<PartKind>) -> PairState {
    text_pass(kinds, kinds.len())
}

/// The answer paired with the call `i`, searching the pairs from index `k`.
pub open spec fn answer_of(pairs: Seq<(usize, usize)>, i: int, k: int) -> Option<int>
    decreases pairs.len() - k,
{
    if k < 0 || k >= pairs.len() {
        None
    } else if pairs[k].0 == i {
        Some(pairs[k].1 as int)
    } else {
        answer_of(pairs, i, k + 1)
    }
}

/// The rows of the message from part `i` on, one part after the other: a
/// paired tool call renders at its own index together with its answer; an
/// answer is passed over where it stands (its call's row shows it); an
/// unpaired part renders alone.
pub open spec fn layout_from(n: int, st: PairState, i: int) -> Seq<LayoutItem>
    decreases n - i,
{
    if i < 0 || i >= n {
        Seq::empty()
    } else if st.paired[i] {
        match answer_of(st.pairs, i, 0) {
            Some(r) => seq![LayoutItem::Pair { call: i as usize, result: r as usize }] + layout_from(n, st, i + 1),
            None => layout_from(n, st, i + 1),
        }
    } else {
        seq![LayoutItem::Single(i as usize)] + layout_from(n, st, i + 1)
    }
}

/// The rows of a message whose parts have the given kinds.
pub open spec fn message_layout(kinds: Seq<PartKind>) -> Seq<LayoutItem> {
    layout_from(kinds.len() as int, pairing(kinds), 0)
}


/// Whether `j` may answer a tool call: a tool result or a text part.
pub open spec fn is_answer_kind(k: PartKind) -> bool {
    k == PartKind::ToolResult || k == PartKind::Text
}

/// The shape every pairing keeps: each pair joins a tool call to a later
/// answer, the paired flags mark exactly the parts that belong to a pair,
/// and no part belongs to two pairs.
pub open spec fn pair_state_ok(kinds: Seq<PartKind>, st: PairState) -> bool {
    &&& st.paired.len() == kinds.len()
    &&& forall|k: int| #![trigger st.pairs[k]] 0 <= k < st.pairs.len() ==> {
        &&& st.pairs[k].0 < st.pairs[k].1 < kinds.len()
        &&& kinds[st.pairs[k].0 as int] == PartKind::ToolCall
        &&& is_answer_kind(kinds[st.pairs[k].1 as int])
        &&& st.paired[st.pairs[k].0 as int]
        &&& st.paired[st.pairs[k].1 as int]
    }
    &&& forall|x: int| 0 <= x < kinds.len() && #[trigger] st.paired[x] ==>
        exists|k: int| 0 <= k < st.pairs.len() && (st.pairs[k].0 == x || st.pairs[k].1 == x)
    &&& forall|a: int, b: int| #![trigger st.pairs[a], st.pairs[b]]
        0 <= a < st.pairs.len() && 0 <= b < st.pairs.len() && a != b ==> {
        &&& st.pairs[a].0 != st.pairs[b].0
        &&& st.pairs[a].1 != st.pairs[b].1
        &&& st.pairs[a].0 != st.pairs[b].1
    }
}

proof fn lemma_find_unpaired(kinds: Seq<PartKind>, paired: Seq<bool>, k: int, want: PartKind)
    requires
        paired.len() == kinds.len(),
    ensures
        find_unpaired(kinds, paired, k, want) matches Some(j) ==> {
            &&& 0 <= k <= j < kinds.len()
            &&& kinds[j] == want
            &&& !paired[j]
        },
    decreases kinds.len() - k,
{
    if k < 0 || k >= kinds.len() {
    } else if kinds[k] == want && !paired[k] {
    } else {
        lemma_find_unpaired(kinds, paired, k + 1, want);
    }
}

proof fn lemma_mark_pair_ok(kinds: Seq<PartKind>, st: PairState, i: int, j: int)
    requires
        pair_state_ok(kinds, st),
        0 <= i < j < kinds.len(),
        kinds.len() <= usize::MAX,
        kinds[i] == PartKind::ToolCall,
        is_answer_kind(kinds[j]),
        !st.paired[i],
        !st.paired[j],
    ensures
        pair_state_ok(kinds, mark_pair(st, i, j)),
{
    let nst = mark_pair(st, i, j);
    let last = st.pairs.len() as int;
    assert(nst.pairs[last] == (i as usize, j as usize));
    assert forall|k: int| 0 <= k < st.pairs.len() implies nst.pairs[k] == st.pairs[k] by {}
    assert forall|x: int| 0 <= x < kinds.len() && #[trigger] nst.paired[x] implies
        exists|k: int| 0 <= k < nst.pairs.len() && (nst.pairs[k].0 == x || nst.pairs[k].1 == x) by {
        if x == i || x == j {
            assert(nst.pairs[last].0 == x || nst.pairs[last].1 == x);
        } else {
            assert(st.paired[x]);
            let k = choose|k: int| 0 <= k < st.pairs.len() && (st.pairs[k].0 == x || st.pairs[k].1 == x);
            assert(nst.pairs[k] == st.pairs[k]);
        }
    }
    assert forall|a: int, b: int| #![trigger nst.pairs[a], nst.pairs[b]]
        0 <= a < nst.pairs.len() && 0 <= b < nst.pairs.len() && a != b implies {
        &&& nst.pairs[a].0 != nst.pairs[b].0
        &&& nst.pairs[a].1 != nst.pairs[b].1
        &&& nst.pairs[a].0 != nst.pairs[b].1
    } by {
        if a < last && b < last {
            assert(st.pairs[a] == nst.pairs[a] && st.pairs[b] == nst.pairs[b]);
        } else if a < last {
            assert(st.pairs[a] == nst.pairs[a]);
            assert(st.paired[st.pairs[a].0 as int] && st.paired[st.pairs[a].1 as int]);
        } else {
            assert(st.pairs[b] == nst.pairs[b]);
            assert(st.paired[st.pairs[b].0 as int] && st.paired[st.pairs[b].1 as int]);
        }
    }
}

proof fn lemma_result_step_ok(kinds: Seq<PartKind>, st: PairState, i: int)
    requires
        pair_state_ok(kinds, st),
        0 <= i < kinds.len(),
        kinds.len() <= usize::MAX,
    ensures
        pair_state_ok(kinds, result_step(kinds, st, i)),
{
    lemma_find_unpaired(kinds, st.paired, i + 1, PartKind::ToolResult);
    if kinds[i] == PartKind::ToolCall && !st.paired[i] {
        match find_unpaired(kinds, st.paired, i + 1, PartKind::ToolResult) {
            Some(j) => lemma_mark_pair_ok(kinds, st, i, j),
            None => {},
        }
    }
}

proof fn lemma_text_step_ok(kinds: Seq<PartKind>, st: PairState, i: int)
    requires
        pair_state_ok(kinds, st),
        0 <= i < kinds.len(),
        kinds.len() <= usize::MAX,
    ensures
        pair_state_ok(kinds, text_step(kinds, st, i)),
{
    lemma_find_unpaired(kinds, st.paired, i + 1, PartKind::Text);
    if kinds[i] == PartKind::ToolCall && !st.paired[i] {
        match find_unpaired(kinds, st.paired, i + 1, PartKind::Text) {
            Some(j) => lemma_mark_pair_ok(kinds, st, i, j),
            None => {},
        }
    }
}

proof fn lemma_result_pass_ok(kinds: Seq<PartKind>, i: nat)
    requires
        i <= kinds.len(),
        kinds.len() <= usize::MAX,
    ensures
        pair_state_ok(kinds, result_pass(kinds, i)),
    decreases i,
{
    if i > 0 {
        lemma_result_pass_ok(kinds, (i - 1) as nat);
        lemma_result_step_ok(kinds, result_pass(kinds, (i - 1) as nat), i - 1);
    }
}

proof fn lemma_text_pass_ok(kinds: Seq<PartKind>, i: nat)
    requires
        i <= kinds.len(),
        kinds.len() <= usize::MAX,
    ensures
        pair_state_ok(kinds, text_pass(kinds, i)),
    decreases i,
{
    if i == 0 {
        lemma_result_pass_ok(kinds, kinds.len());
    } else {
        lemma_text_pass_ok(kinds, (i - 1) as nat);
        lemma_text_step_ok(kinds, text_pass(kinds, (i - 1) as nat), i - 1);
    }
}

/// Every pairing of a message is well formed: each pair joins a tool call
/// to a later tool result or text part, the paired flags mark exactly the
/// parts in pairs, and no part is in two pairs.
pub proof fn lemma_pairing_well_formed(kinds: Seq<PartKind>)
    requires
        kinds.len() <= usize::MAX,
    ensures
        pair_state_ok(kinds, pairing(kinds)),
{
    lemma_text_pass_ok(kinds, kinds.len());
}

proof fn lemma_answer_of(pairs: Seq<(usize, usize)>, i: int, k: int)
    ensures
        answer_of(pairs, i, k) matches Some(r) ==>
            exists|m: int| k <= m < pairs.len() && 0 <= m && pairs[m].0 == i && pairs[m].1 == r,
        answer_of(pairs, i, k) is None ==>
            forall|m: int| 0 <= k <= m < pairs.len() ==> #[trigger] pairs[m].0 != i,
    decreases pairs.len() - k,
{
    if k < 0 || k >= pairs.len() {
    } else if pairs[k].0 == i {
    } else {
        lemma_answer_of(pairs, i, k + 1);
    }
}


fn find_unpaired_exec(kinds: &Vec<PartKind>, paired: &Vec<bool>, from: usize, want: PartKind) -> (r: Option<usize>)
    requires
        paired.len() == kinds.len(),
    ensures
        match r {
            Some(j) => find_unpaired(kinds@, paired@, from as int, want) == Some(j as int),
            None => find_unpaired(kinds@, paired@, from as int, want) is None,
        },
{
    let n = kinds.len();
    let mut k = from;
    while k < n
        invariant
            from <= k,
            n == kinds.len(),
            paired.len() == n,
            find_unpaired(kinds@, paired@, from as int, want) == find_unpaired(kinds@, paired@, k as int, want),
        decreases n - k,
    {
        if kinds[k] == want && !paired[k] {
            return Some(k);
        }
        k = k + 1;
    }
    None
}

/// Pairs the tool calls of a message with their answers: first each call,
/// in order, takes the earliest unpaired tool result after it; then each
/// call still unpaired takes the earliest unpaired text part after it,
/// unless an unpaired tool result lies before that text. Returns which
/// parts are paired and the pairs `(call, answer)` in the order they formed.
pub fn pair_tool_parts(kinds: &Vec<PartKind>) -> (r: (Vec<bool>, Vec<(usize, usize)>))
    ensures
        r.0@ == pairing(kinds@).paired,
        r.1@ == pairing(kinds@).pairs,
{
    let n = kinds.len();
    let mut paired: Vec<bool> = Vec::new();
    let mut k: usize = 0;
    while k < n
        invariant
            k <= n,
            n == kinds.len(),
            paired@ =~= Seq::new(k as nat, |x: int| false),
        decreases n - k,
    {
        paired.push(false);
        k = k + 1;
    }
    let mut pairs: Vec<(usize, usize)> = Vec::new();
    proof {
        assert(paired@ =~= initial_pair_state(kinds@.len()).paired);
        assert(pairs@ =~= initial_pair_state(kinds@.len()).pairs);
    }
    let mut i: usize = 0;
    while i < n
        invariant
            i <= n,
            n == kinds.len(),
            paired@ == result_pass(kinds@, i as nat).paired,
            pairs@ == result_pass(kinds@, i as nat).pairs,
            pair_state_ok(kinds@, result_pass(kinds@, i as nat)),
        decreases n - i,
    {
        proof {
            lemma_result_step_ok(kinds@, result_pass(kinds@, i as nat), i as int);
            lemma_find_unpaired(kinds@, paired@, i + 1, PartKind::ToolResult);
        }
        if kinds[i] == PartKind::ToolCall && !paired[i] {
            if let Some(j) = find_unpaired_exec(kinds, &paired, i + 1, PartKind::ToolResult) {
                paired.set(i, true);
                paired.set(j, true);
                pairs.push((i, j));
            }
        }
        i = i + 1;
    }
    let mut i: usize = 0;
    while i < n
        invariant
            i <= n,
            n == kinds.len(),
            paired@ == text_pass(kinds@, i as nat).paired,
            pairs@ == text_pass(kinds@, i as nat).pairs,
            pair_state_ok(kinds@, text_pass(kinds@, i as nat)),
        decreases n - i,
    {
        proof {
            lemma_text_step_ok(kinds@, text_pass(kinds@, i as nat), i as int);
            lemma_find_unpaired(kinds@, paired@, i + 1, PartKind::Text);
        }
        if kinds[i] == PartKind::ToolCall && !paired[i] {
            if let Some(j) = find_unpaired_exec(kinds, &paired, i + 1, PartKind::Text) {
                let between = match find_unpaired_exec(kinds, &paired, i + 1, PartKind::ToolResult) {
                    Some(m) => m < j,
                    None => false,
                };
                if !between {
                    paired.set(i, true);
                    paired.set(j, true);
                    pairs.push((i, j));
                }
            }
        }
        i = i + 1;
    }
    (paired, pairs)
}

fn answer_exec(pairs: &Vec<(usize, usize)>, i: usize) -> (r: Option<usize>)
    ensures
        match r {
            Some(x) => answer_of(pairs@, i as int, 0) == Some(x as int),
            None => answer_of(pairs@, i as int, 0) is None,
        },
{
    let mut k: usize = 0;
    while k < pairs.len()
        invariant
            k <= pairs.len(),
            answer_of(pairs@, i as int, 0) == answer_of(pairs@, i as int, k as int),
        decreases pairs.len() - k,
    {
        if pairs[k].0 == i {
            return Some(pairs[k].1);
        }
        k = k + 1;
    }
    None
}

/// The rows in which a message with parts of the given kinds renders.
pub fn plan_message_layout(kinds: &Vec<PartKind>) -> (r: Vec<LayoutItem>)
    ensures
        r@ == message_layout(kinds@),
{
    let (paired, pairs) = pair_tool_parts(kinds);
    let ghost st = pairing(kinds@);
    proof {
        assert(kinds@.len() == kinds.len());
        lemma_pairing_well_formed(kinds@);
    }
    let n = kinds.len();
    let mut items: Vec<LayoutItem> = Vec::new();
    let mut i: usize = 0;
    while i < n
        invariant
            i <= n,
            n == kinds.len(),
            st == pairing(kinds@),
            pair_state_ok(kinds@, st),
            paired@ == st.paired,
            pairs@ == st.pairs,
            items@ + layout_from(n as int, st, i as int) == layout_from(n as int, st, 0),
        decreases n - i,
    {
        let ghost before = items@;
        if paired[i] {
            match answer_exec(&pairs, i) {
                Some(r) => {
                    proof {
                        lemma_answer_of(pairs@, i as int, 0);
                        let m = choose|m: int| 0 <= m < pairs@.len() && pairs@[m].0 == i && pairs@[m].1 == r;
                        assert(st.pairs[m].0 < st.pairs[m].1 < n);
                    }
                    items.push(LayoutItem::Pair { call: i, result: r });
                    proof {
                        assert(before + layout_from(n as int, st, i as int) =~= items@ + layout_from(n as int, st, i + 1));
                    }
                    i = i + 1;
                },
                None => {
                    i = i + 1;
                },
            }
        } else {
            items.push(LayoutItem::Single(i));
            proof {
                assert(before + layout_from(n as int, st, i as int) =~= items@ + layout_from(n as int, st, i + 1));
            }
            i = i + 1;
        }
    }
    assert(layout_from(n as int, st, i as int) =~= Seq::<LayoutItem>::empty());
    assert(items@ =~= layout_from(n as int, st, 0));
    items
}


/// The part index at which a row stands: the call of a pair, the part of a
/// single row.
pub open spec fn row_first(item: LayoutItem) -> int {
    match item {
        LayoutItem::Pair { call, result } => call as int,
        LayoutItem::Single(k) => k as int,
    }
}

/// Whether a row shows the part `x`.
pub open spec fn row_covers(item: LayoutItem, x: int) -> bool {
    match item {
        LayoutItem::Pair { call, result } => call == x || result == x,
        LayoutItem::Single(k) => k == x,
    }
}

/// What the rows built from `st` from part `i` on satisfy: they stand at
/// increasing indices in `i..n`; a single row is an unpaired part and a
/// paired row is one of the pairs; every unpaired part from `i` on has its
/// single row, and every pair whose call is at `i` or later has its row.
pub open spec fn rows_ok(n: int, st: PairState, rows: Seq<LayoutItem>, i: int) -> bool {
    &&& forall|a: int| 0 <= a < rows.len() ==> i <= row_first(#[trigger] rows[a]) < n
    &&& forall|a: int, b: int| 0 <= a < b < rows.len() ==> row_first(#[trigger] rows[a]) < row_first(#[trigger] rows[b])
    &&& forall|a: int| 0 <= a < rows.len() ==> match #[trigger] rows[a] {
        LayoutItem::Single(k) => !st.paired[k as int],
        LayoutItem::Pair { call, result } =>
            exists|m: int| 0 <= m < st.pairs.len() && st.pairs[m] == (call, result),
    }
    &&& forall|x: int| i <= x < n && !#[trigger] st.paired[x] ==>
        exists|a: int| 0 <= a < rows.len() && rows[a] == LayoutItem::Single(x as usize)
    &&& forall|m: int| 0 <= m < st.pairs.len() && #[trigger] st.pairs[m].0 >= i ==>
        exists|a: int| 0 <= a < rows.len() && rows[a] == LayoutItem::Pair { call: st.pairs[m].0, result: st.pairs[m].1 }
}

/// Whether some row shows the part `x`.
pub open spec fn part_shown(rows: Seq<LayoutItem>, x: int) -> bool {
    exists|a: int| 0 <= a < rows.len() && #[trigger] row_covers(rows[a], x)
}

/// Every part `0..n` is shown by exactly one of the rows.
pub open spec fn shows_each_part_once(n: int, rows: Seq<LayoutItem>) -> bool {
    &&& forall|x: int| 0 <= x < n ==> #[trigger] part_shown(rows, x)
    &&& forall|x: int, a: int, b: int|
        0 <= a < rows.len() && 0 <= b < rows.len() && #[trigger] row_covers(rows[a], x) && #[trigger] row_covers(rows[b], x)
            ==> a == b
}

proof fn lemma_layout_from_ok(kinds: Seq<PartKind>, st: PairState, i: int)
    requires
        pair_state_ok(kinds, st),
        0 <= i,
        kinds.len() <= usize::MAX,
    ensures
        rows_ok(kinds.len() as int, st, layout_from(kinds.len() as int, st, i), i),
    decreases kinds.len() - i,
{
    let n = kinds.len() as int;
    if i >= n {
        assert forall|m: int| 0 <= m < st.pairs.len() && #[trigger] st.pairs[m].0 >= i implies
            exists|a: int| 0 <= a < layout_from(n, st, i).len() && layout_from(n, st, i)[a]
                == LayoutItem::Pair { call: st.pairs[m].0, result: st.pairs[m].1 } by {
            assert(st.pairs[m].0 < st.pairs[m].1 < n);
        }
    } else {
        lemma_layout_from_ok(kinds, st, i + 1);
        let rest = layout_from(n, st, i + 1);
        if st.paired[i] {
            match answer_of(st.pairs, i, 0) {
                Some(r) => {
                    lemma_answer_of(st.pairs, i, 0);
                    let m0 = choose|m: int| 0 <= m < st.pairs.len() && st.pairs[m].0 == i && st.pairs[m].1 == r;
                    assert(st.pairs[m0].0 < st.pairs[m0].1 < n);
                    let head = LayoutItem::Pair { call: i as usize, result: r as usize };
                    let rows = seq![head] + rest;
                    assert(rows =~= layout_from(n, st, i));
                    assert(st.pairs[m0] == (i as usize, r as usize));
                    assert forall|a: int| 0 <= a < rows.len() implies match #[trigger] rows[a] {
                        LayoutItem::Single(k) => !st.paired[k as int],
                        LayoutItem::Pair { call, result } =>
                            exists|m: int| 0 <= m < st.pairs.len() && st.pairs[m] == (call, result),
                    } by {
                        if a > 0 { assert(rows[a] == rest[a - 1]); }
                    }
                    assert forall|a: int, b: int| 0 <= a < b < rows.len() implies
                        row_first(#[trigger] rows[a]) < row_first(#[trigger] rows[b]) by {
                        assert(rows[b] == rest[b - 1]);
                        if a > 0 { assert(rows[a] == rest[a - 1]); }
                    }
                    assert forall|a: int| 0 <= a < rows.len() implies
                        i <= row_first(#[trigger] rows[a]) < n by {
                        if a > 0 { assert(rows[a] == rest[a - 1]); }
                    }
                    assert forall|x: int| i <= x < n && !#[trigger] st.paired[x] implies
                        exists|a: int| 0 <= a < rows.len() && rows[a] == LayoutItem::Single(x as usize) by {
                        let a1 = choose|a: int| 0 <= a < rest.len() && rest[a] == LayoutItem::Single(x as usize);
                        assert(rows[a1 + 1] == rest[a1]);
                    }
                    assert forall|m: int| 0 <= m < st.pairs.len() && #[trigger] st.pairs[m].0 >= i implies
                        exists|a: int| 0 <= a < rows.len() && rows[a]
                            == LayoutItem::Pair { call: st.pairs[m].0, result: st.pairs[m].1 } by {
                        if st.pairs[m].0 == i {
                            if m != m0 {
                                assert(st.pairs[m].0 != st.pairs[m0].0);
                            }
                            assert(rows[0] == head);
                        } else {
                            let a1 = choose|a: int| 0 <= a < rest.len() && rest[a]
                                == LayoutItem::Pair { call: st.pairs[m].0, result: st.pairs[m].1 };
                            assert(rows[a1 + 1] == rest[a1]);
                        }
                    }
                },
                None => {
                    lemma_answer_of(st.pairs, i, 0);
                    assert(rest =~= layout_from(n, st, i));
                    assert forall|m: int| 0 <= m < st.pairs.len() && #[trigger] st.pairs[m].0 >= i implies
                        exists|a: int| 0 <= a < rest.len() && rest[a]
                            == LayoutItem::Pair { call: st.pairs[m].0, result: st.pairs[m].1 } by {
                        assert(st.pairs[m].0 != i);
                    }
                },
            }
        } else {
            let rows = seq![LayoutItem::Single(i as usize)] + rest;
            assert(rows =~= layout_from(n, st, i));
            assert forall|a: int| 0 <= a < rows.len() implies match #[trigger] rows[a] {
                LayoutItem::Single(k) => !st.paired[k as int],
                LayoutItem::Pair { call, result } =>
                    exists|m: int| 0 <= m < st.pairs.len() && st.pairs[m] == (call, result),
            } by {
                if a > 0 { assert(rows[a] == rest[a - 1]); }
            }
            assert forall|a: int, b: int| 0 <= a < b < rows.len() implies
                row_first(#[trigger] rows[a]) < row_first(#[trigger] rows[b]) by {
                assert(rows[b] == rest[b - 1]);
                if a > 0 { assert(rows[a] == rest[a - 1]); }
            }
            assert forall|a: int| 0 <= a < rows.len() implies
                i <= row_first(#[trigger] rows[a]) < n by {
                if a > 0 { assert(rows[a] == rest[a - 1]); }
            }
            assert forall|x: int| i <= x < n && !#[trigger] st.paired[x] implies
                exists|a: int| 0 <= a < rows.len() && rows[a] == LayoutItem::Single(x as usize) by {
                if x == i {
                    assert(rows[0] == LayoutItem::Single(i as usize));
                } else {
                    let a1 = choose|a: int| 0 <= a < rest.len() && rest[a] == LayoutItem::Single(x as usize);
                    assert(rows[a1 + 1] == rest[a1]);
                }
            }
            assert forall|m: int| 0 <= m < st.pairs.len() && #[trigger] st.pairs[m].0 >= i implies
                exists|a: int| 0 <= a < rows.len() && rows[a]
                    == LayoutItem::Pair { call: st.pairs[m].0, result: st.pairs[m].1 } by {
                assert(st.paired[st.pairs[m].0 as int]);
                let a1 = choose|a: int| 0 <= a < rest.len() && rest[a]
                    == LayoutItem::Pair { call: st.pairs[m].0, result: st.pairs[m].1 };
                assert(rows[a1 + 1] == rest[a1]);
            }
        }
    }
}

/// The rows of a message stand at increasing part indices, a pair at the
/// index of its call; a single row is a part no pair took and a paired row
/// is one of the pairs the pairing formed; and every part of the message is
/// shown by exactly one row.
pub proof fn lemma_message_layout_rows(kinds: Seq<PartKind>)
    requires
        kinds.len() <= usize::MAX,
    ensures
        rows_ok(kinds.len() as int, pairing(kinds), message_layout(kinds), 0),
        shows_each_part_once(kinds.len() as int, message_layout(kinds)),
{
    let n = kinds.len() as int;
    let st = pairing(kinds);
    let rows = message_layout(kinds);
    lemma_pairing_well_formed(kinds);
    lemma_layout_from_ok(kinds, st, 0);
    assert forall|x: int| 0 <= x < n implies #[trigger] part_shown(rows, x) by {
        if !st.paired[x] {
            let a = choose|a: int| 0 <= a < rows.len() && rows[a] == LayoutItem::Single(x as usize);
            assert(row_covers(rows[a], x));
        } else {
            let k = choose|k: int| 0 <= k < st.pairs.len() && (st.pairs[k].0 == x || st.pairs[k].1 == x);
            assert(st.pairs[k].0 >= 0);
            let a = choose|a: int| 0 <= a < rows.len() && rows[a]
                == LayoutItem::Pair { call: st.pairs[k].0, result: st.pairs[k].1 };
            assert(row_covers(rows[a], x));
        }
    }
    assert forall|x: int, a: int, b: int|
        0 <= a < rows.len() && 0 <= b < rows.len() && #[trigger] row_covers(rows[a], x) && #[trigger] row_covers(rows[b], x)
            implies a == b by {
        if a != b {
            if a < b {
                assert(row_first(rows[a]) < row_first(rows[b]));
            } else {
                assert(row_first(rows[b]) < row_first(rows[a]));
            }
            match rows[a] {
                LayoutItem::Single(ka) => {
                    assert(!st.paired[ka as int]);
                    match rows[b] {
                        LayoutItem::Single(kb) => {},
                        LayoutItem::Pair { call, result } => {
                            let mb = choose|m: int| 0 <= m < st.pairs.len() && st.pairs[m] == (call, result);
                            assert(st.paired[st.pairs[mb].0 as int]);
                            assert(st.paired[st.pairs[mb].1 as int]);
                        },
                    }
                },
                LayoutItem::Pair { call: ca, result: ra } => {
                    let ma = choose|m: int| 0 <= m < st.pairs.len() && st.pairs[m] == (ca, ra);
                    assert(st.paired[st.pairs[ma].0 as int]);
                    assert(st.paired[st.pairs[ma].1 as int]);
                    match rows[b] {
                        LayoutItem::Single(kb) => {},
                        LayoutItem::Pair { call: cb, result: rb } => {
                            let mb = choose|m: int| 0 <= m < st.pairs.len() && st.pairs[m] == (cb, rb);
                            if ma != mb {
                                assert(st.pairs[ma].0 != st.pairs[mb].0);
                                assert(st.pairs[ma].1 != st.pairs[mb].1);
                                assert(st.pairs[ma].0 != st.pairs[mb].1);
                                assert(st.pairs[mb].0 != st.pairs[ma].1);
                            }
                        },
                    }
                },
            }
        }
    }
}

} // verus!
