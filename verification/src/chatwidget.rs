//! Helpers of the chat widget: the first user message of a session and the
//! status header taken from reasoning text.
use vstd::prelude::*;
use crate::chat_composer::TokenUsage;
use crate::text::{chars_of, string_from, trim};

verus! {

/// A message typed by the user, with the images attached to it.
#[derive(Debug, Clone, PartialEq)]
pub struct UserMessage {
    pub text: String,
    pub image_paths: Vec<String>,
}

impl UserMessage {
    /// A message with text only.
    pub fn from_text(text: String) -> (r: Self)
        ensures
            r.text == text,
            r.image_paths@.len() == 0,
    {
        UserMessage { text, image_paths: Vec::new() }
    }
}

/// The message a session starts with: none when there is neither text nor
/// image.
pub fn create_initial_user_message(text: String, image_paths: Vec<String>) -> (r: Option<UserMessage>)
    ensures
        (text@.len() == 0 && image_paths@.len() == 0) ==> r is None,
        !(text@.len() == 0 && image_paths@.len() == 0) ==> (r matches Some(m) && m.text == text
            && m.image_paths == image_paths),
{
    if text.as_str().is_empty() && image_paths.len() == 0 {
        None
    } else {
        Some(UserMessage { text, image_paths })
    }
}

/// Position of the first `**` at or after `from`.
pub open spec fn first_double_star(s: Seq<char>, from: int) -> Option<int>
    decreases s.len() - from,
{
    if from < 0 || from + 1 >= s.len() {
        None
    } else if s[from] == '*' && s[from + 1] == '*' {
        Some(from)
    } else {
        first_double_star(s, from + 1)
    }
}

/// The text between the first `**` and the next `**`, trimmed, when it is
/// not empty; nothing while the closing `**` has not arrived.
pub open spec fn first_bold(s: Seq<char>) -> Option<Seq<char>> {
    match first_double_star(s, 0) {
        Some(i) => match first_double_star(s, i + 2) {
            Some(j) => {
                let inner = trim(s.subrange(i + 2, j));
                if inner.len() > 0 {
                    Some(inner)
                } else {
                    None
                }
            },
            None => None,
        },
        None => None,
    }
}

proof fn lemma_first_double_star(s: Seq<char>, from: int)
    requires
        0 <= from,
    ensures
        first_double_star(s, from) matches Some(i) ==> from <= i && i + 1 < s.len(),
    decreases s.len() - from,
{
    if from + 1 < s.len() && !(s[from] == '*' && s[from + 1] == '*') {
        lemma_first_double_star(s, from + 1);
    }
}

fn find_double_star(s: &[char], from: usize) -> (r: Option<usize>)
    ensures
        match r {
            Some(i) => first_double_star(s@, from as int) == Some(i as int),
            None => first_double_star(s@, from as int) is None,
        },
{
    let n = s.len();
    let mut i = from;
    while i < n && i + 1 < n
        invariant
            n == s@.len(),
            from <= i,
            first_double_star(s@, from as int) == first_double_star(s@, i as int),
        decreases n - i,
    {
        if s[i] == '*' && s[i + 1] == '*' {
            return Some(i);
        }
        i += 1;
    }
    None
}

/// The first bold (`**...**`) span of `s`, trimmed, if it is closed and
/// not blank.
pub fn extract_first_bold(s: &str) -> (r: Option<String>)
    ensures
        match r {
            Some(t) => first_bold(s@) == Some(t@),
            None => first_bold(s@) is None,
        },
{
    let c = chars_of(s);
    match find_double_star(&c, 0) {
        Some(i) => {
            proof {
                lemma_first_double_star(c@, 0);
            }
            match find_double_star(&c, i + 2) {
                Some(j) => {
                    proof {
                        lemma_first_double_star(c@, i + 2);
                    }
                    let (a, b) = crate::text::trim_bounds(&c, i + 2, j);
                    if a < b {
                        Some(string_from(&c[a..b]))
                    } else {
                        None
                    }
                },
                None => None,
            }
        },
        None => None,
    }
}

/// The sum of two optional counts: absent only when both are.
pub open spec fn add_opt(a: Option<u64>, b: Option<u64>) -> Option<int> {
    match (a, b) {
        (Some(x), Some(y)) => Some(x + y),
        (Some(x), None) => Some(x as int),
        (None, Some(y)) => Some(y as int),
        (None, None) => None,
    }
}

/// Whether `add_opt(a, b)` fits in a `u64`.
pub open spec fn opt_sum_fits(a: Option<u64>, b: Option<u64>) -> bool {
    match add_opt(a, b) {
        Some(v) => v <= u64::MAX,
        None => true,
    }
}

/// Whether every count of the sum of two usages fits in a `u64`.
pub open spec fn usage_sum_fits(a: TokenUsage, b: TokenUsage) -> bool {
    &&& a.input_tokens + b.input_tokens <= u64::MAX
    &&& a.output_tokens + b.output_tokens <= u64::MAX
    &&& a.total_tokens + b.total_tokens <= u64::MAX
    &&& opt_sum_fits(a.cached_input_tokens, b.cached_input_tokens)
    &&& opt_sum_fits(a.reasoning_output_tokens, b.reasoning_output_tokens)
}

/// Whether `r` is the count-by-count sum of `a` and `b`.
pub open spec fn is_usage_sum(r: TokenUsage, a: TokenUsage, b: TokenUsage) -> bool {
    &&& r.input_tokens == a.input_tokens + b.input_tokens
    &&& r.output_tokens == a.output_tokens + b.output_tokens
    &&& r.total_tokens == a.total_tokens + b.total_tokens
    &&& add_opt(a.cached_input_tokens, b.cached_input_tokens) == match r.cached_input_tokens {
        Some(v) => Some(v as int),
        None => None::<int>,
    }
    &&& add_opt(a.reasoning_output_tokens, b.reasoning_output_tokens) == match r.reasoning_output_tokens {
        Some(v) => Some(v as int),
        None => None::<int>,
    }
}

fn add_opt_u64(a: Option<u64>, b: Option<u64>) -> (r: Option<u64>)
    requires
        opt_sum_fits(a, b),
    ensures
        add_opt(a, b) == match r {
            Some(v) => Some(v as int),
            None => None::<int>,
        },
{
    match (a, b) {
        (Some(x), Some(y)) => Some(x + y),
        (Some(x), None) => Some(x),
        (None, Some(y)) => Some(y),
        (None, None) => None,
    }
}

/// The usage of a session so far plus that of one more turn, count by count;
/// an optional count is absent only when absent from both.
pub fn add_token_usage(current_usage: &TokenUsage, new_usage: &TokenUsage) -> (r: TokenUsage)
    requires
        usage_sum_fits(*current_usage, *new_usage),
    ensures
        is_usage_sum(r, *current_usage, *new_usage),
{
    TokenUsage {
        input_tokens: current_usage.input_tokens + new_usage.input_tokens,
        cached_input_tokens: add_opt_u64(current_usage.cached_input_tokens, new_usage.cached_input_tokens),
        output_tokens: current_usage.output_tokens + new_usage.output_tokens,
        reasoning_output_tokens: add_opt_u64(
            current_usage.reasoning_output_tokens,
            new_usage.reasoning_output_tokens,
        ),
        total_tokens: current_usage.total_tokens + new_usage.total_tokens,
    }
}

/// Adding usages does not depend on how the turns are grouped: adding `b`
/// then `c` to `a` gives what adding `c` to `b` and that to `a` gives.
pub proof fn law_add_token_usage_associative(
    a: TokenUsage,
    b: TokenUsage,
    c: TokenUsage,
    ab: TokenUsage,
    ab_c: TokenUsage,
    bc: TokenUsage,
    a_bc: TokenUsage,
)
    requires
        is_usage_sum(ab, a, b),
        is_usage_sum(ab_c, ab, c),
        is_usage_sum(bc, b, c),
        is_usage_sum(a_bc, a, bc),
    ensures
        ab_c == a_bc,
{
}

/// A submitted message: while a turn runs it waits at the back of the
/// queue, otherwise it is sent now.
pub open spec fn submit_step(q: Seq<UserMessage>, m: UserMessage, task_running: bool) -> (
    Seq<UserMessage>,
    Option<UserMessage>,
) {
    if task_running {
        (q.push(m), None)
    } else {
        (q, Some(m))
    }
}

/// When no turn runs, the oldest queued message leaves to be sent.
pub open spec fn next_step(q: Seq<UserMessage>, task_running: bool) -> (Seq<UserMessage>, Option<UserMessage>) {
    if task_running || q.len() == 0 {
        (q, None)
    } else {
        (q.drop_first(), Some(q[0]))
    }
}

/// Messages submitted one after another while a turn runs.
pub open spec fn submit_all_running(q: Seq<UserMessage>, ms: Seq<UserMessage>) -> Seq<UserMessage>
    decreases ms.len(),
{
    if ms.len() == 0 {
        q
    } else {
        submit_all_running(submit_step(q, ms[0], true).0, ms.drop_first())
    }
}

/// The messages sent by `n` idle turns ending, in order.
pub open spec fn drain_idle(q: Seq<UserMessage>, n: nat) -> Seq<UserMessage>
    decreases n,
{
    if n == 0 {
        Seq::empty()
    } else {
        match next_step(q, false).1 {
            Some(m) => seq![m] + drain_idle(next_step(q, false).0, (n - 1) as nat),
            None => Seq::empty(),
        }
    }
}

proof fn lemma_submit_all_running(q: Seq<UserMessage>, ms: Seq<UserMessage>)
    ensures
        submit_all_running(q, ms) == q + ms,
    decreases ms.len(),
{
    if ms.len() > 0 {
        lemma_submit_all_running(q.push(ms[0]), ms.drop_first());
        assert(q.push(ms[0]) + ms.drop_first() =~= q + ms);
    } else {
        assert(q + ms =~= q);
    }
}

proof fn lemma_drain_idle(q: Seq<UserMessage>)
    ensures
        drain_idle(q, q.len()) == q,
    decreases q.len(),
{
    if q.len() > 0 {
        lemma_drain_idle(q.drop_first());
        assert(seq![q[0]] + q.drop_first() =~= q);
    } else {
        assert(drain_idle(q, 0) =~= q);
    }
}

/// Messages typed during a turn are sent one per finished turn, in the
/// order they were typed: submitting `ms` one by one while a turn runs, then
/// letting as many idle turns end, sends exactly `ms`, oldest first.
pub proof fn law_queued_inputs_first_in_first_out(ms: Seq<UserMessage>)
    ensures
        drain_idle(submit_all_running(Seq::empty(), ms), ms.len()) == ms,
{
    lemma_submit_all_running(Seq::empty(), ms);
    assert(Seq::<UserMessage>::empty() + ms =~= ms);
    lemma_drain_idle(ms);
}

/// Messages typed while a turn is running, waiting to be sent in the order
/// they were typed.
pub struct QueuedInputs {
    items: Vec<UserMessage>,
}

impl QueuedInputs {
    pub closed spec fn view(&self) -> Seq<UserMessage> {
        self.items@
    }

    /// An empty queue.
    pub fn new() -> (r: Self)
        ensures
            r.view() == Seq::<UserMessage>::empty(),
    {
        QueuedInputs { items: Vec::new() }
    }

    pub fn len(&self) -> (r: usize)
        ensures
            r == self.view().len(),
    {
        self.items.len()
    }

    /// A message was submitted: while a turn runs it waits at the back of
    /// the queue; otherwise it is handed back to be sent now.
    pub fn on_submitted(&mut self, message: UserMessage, task_running: bool) -> (r: Option<UserMessage>)
        ensures
            (final(self).view(), r) == submit_step(old(self).view(), message, task_running),
    {
        if task_running {
            self.items.push(message);
            None
        } else {
            Some(message)
        }
    }

    /// A turn ended (or the widget is idle): the oldest queued message, to be
    /// sent now, unless a turn is still running.
    pub fn next_to_send(&mut self, task_running: bool) -> (r: Option<UserMessage>)
        ensures
            (final(self).view(), r) == next_step(old(self).view(), task_running),
    {
        if task_running || self.items.len() == 0 {
            None
        } else {
            let m = self.items.remove(0);
            proof {
                assert(self.items@ =~= old(self).view().drop_first());
            }
            Some(m)
        }
    }

    /// Alt+Up pressed: the most recently queued message leaves the queue,
    /// its text to be edited again; nothing for another key or an empty
    /// queue.
    pub fn take_for_edit(&mut self, key: crate::key::KeyEvent) -> (r: Option<String>)
        ensures
            is_edit_queued_key(key) && old(self).view().len() > 0 ==> r == Some(old(self).view().last().text)
                && final(self).view() == old(self).view().drop_last(),
            !(is_edit_queued_key(key) && old(self).view().len() > 0) ==> r is None && final(self).view()
                == old(self).view(),
    {
        let is_alt_up = key.code == crate::key::KeyCode::Up && key.modifiers.alt && !key.modifiers.control
            && !key.modifiers.shift && key.kind == crate::key::KeyEventKind::Press;
        if is_alt_up && self.items.len() > 0 {
            match self.items.pop() {
                Some(m) => Some(m.text),
                None => None,
            }
        } else {
            None
        }
    }

    /// The texts of the queued messages, oldest first.
    pub fn texts(&self) -> (r: Vec<String>)
        ensures
            r@.len() == self.view().len(),
            forall|i: int| 0 <= i < r@.len() ==> #[trigger] r@[i]@ == self.view()[i].text@,
    {
        let mut r: Vec<String> = Vec::new();
        let mut i: usize = 0;
        while i < self.items.len()
            invariant
                i <= self.items@.len(),
                r@.len() == i,
                forall|k: int| 0 <= k < i ==> #[trigger] r@[k]@ == self.items@[k].text@,
            decreases self.items.len() - i,
        {
            r.push(self.items[i].text.clone());
            i += 1;
        }
        r
    }
}

/// Alt+Up, pressed.
pub open spec fn is_edit_queued_key(key: crate::key::KeyEvent) -> bool {
    &&& key.code == crate::key::KeyCode::Up
    &&& key.modifiers.alt && !key.modifiers.control && !key.modifiers.shift
    &&& key.kind == crate::key::KeyEventKind::Press
}

} // verus!
