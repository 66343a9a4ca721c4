//! Todo items and the rules that create, edit and complete them.

use vstd::prelude::*;

use crate::text::{
    collapse_whitespace, is_whitespace, is_whitespace_char, join_words, lemma_join_extend_last,
    lemma_join_push, lemma_words_are_words, push_char, words,
};

verus! {

/// Collapses every run of whitespace (line breaks and tabs included) into a single
/// space and trims both ends: the words of `raw`, joined by single spaces.
pub fn normalize_text(raw: &str) -> (r: String)
    ensures
        r@ == collapse_whitespace(raw@),
{
    let mut out = String::new();
    let mut in_word = false;
    let mut any_word = false;
    let ghost mut seen: Seq<char> = Seq::empty();
    for c in it: raw.chars()
        invariant
            it.seq() == raw@,
            seen == raw@.take(it.index() as int),
            out@ == join_words(words(seen)),
            in_word == (seen.len() > 0 && !is_whitespace(seen.last())),
            any_word == (words(seen).len() > 0),
    {
        proof {
            lemma_words_are_words(seen);
        }
        let ghost prev = seen;
        proof {
            seen = seen.push(c);
            assert(seen.drop_last() =~= prev);
        }
        if is_whitespace_char(c) {
            in_word = false;
        } else {
            if in_word {
                proof {
                    assert(seen[seen.len() - 2] == prev.last());
                    lemma_join_extend_last(words(prev), c);
                }
            } else {
                if any_word {
                    push_char(&mut out, ' ');
                }
                proof {
                    lemma_join_push(words(prev), seq![c]);
                    if prev.len() > 0 {
                        assert(seen[seen.len() - 2] == prev.last());
                    }
                }
            }
            push_char(&mut out, c);
            in_word = true;
            any_word = true;
        }
    }
    proof {
        assert(raw@.take(raw@.len() as int) =~= raw@);
    }
    out
}

} // verus!

verus! {

/// One todo.
#[derive(Debug, Clone)]
pub struct TodoItem {
    pub id: String,
    pub text: String,
    pub completed: bool,
    pub created_at_ms: i64,
    pub updated_at_ms: i64,
    pub completed_at_ms: Option<i64>,
}

// ---- wall clock -------------------------------------------------------------

#[verifier::external_type_specification]
#[verifier::external_body]
pub struct ExSystemTime(std::time::SystemTime);

/// The current wall-clock time.
/// Trusted: `SystemTime::now` (std). Nothing is promised of the value: it is the time.
#[verifier::external_body]
fn system_time_now() -> std::time::SystemTime {
    std::time::SystemTime::now()
}

/// How long after the Unix epoch `t` lies; `None` when `t` is earlier than the epoch.
/// Trusted: `SystemTime::duration_since` (std) with `UNIX_EPOCH`; the error is mapped to
/// `None`. Nothing is promised of the duration, which depends on `t` only through the clock.
#[verifier::external_body]
fn since_unix_epoch(t: &std::time::SystemTime) -> Option<std::time::Duration> {
    t.duration_since(std::time::UNIX_EPOCH).ok()
}

/// The whole milliseconds of a duration.
/// Trusted: `Duration::as_millis` (std). A `Duration` is opaque here, so the result is
/// left unstated.
#[verifier::external_body]
fn duration_millis(d: &std::time::Duration) -> u128 {
    d.as_millis()
}

/// Milliseconds since the Unix epoch as a signed timestamp: the `u128` count truncated
/// to `i64` the way `as` does, and 0 for a clock set before the epoch.
pub fn timestamp_from_millis(millis: Option<u128>) -> (r: i64)
    ensures
        r == match millis {
            Some(m) => m as i64,
            None => 0i64,
        },
{
    match millis {
        Some(m) => m as i64,
        None => 0,
    }
}

/// The current time in milliseconds since the Unix epoch (0 when the clock is set
/// before the epoch).
pub fn now_ms() -> i64 {
    let now = system_time_now();
    let millis = match since_unix_epoch(&now) {
        Some(d) => Some(duration_millis(&d)),
        None => None,
    };
    timestamp_from_millis(millis)
}

// ---- identifiers --------------------------------------------------------------

#[verifier::external_type_specification]
#[verifier::external_body]
pub struct ExUuid(uuid::Uuid);

pub open spec fn is_hex_digit(c: char) -> bool {
    ('0' <= c <= '9') || ('a' <= c <= 'f') || ('A' <= c <= 'F')
}

pub open spec fn is_lower_hex_digit(c: char) -> bool {
    ('0' <= c <= '9') || ('a' <= c <= 'f')
}

pub open spec fn is_uuid_hyphen_index(i: int) -> bool {
    i == 8 || i == 13 || i == 18 || i == 23
}

/// `8-4-4-4-12` hexadecimal digits separated by hyphens.
pub open spec fn is_hyphenated_uuid(s: Seq<char>) -> bool {
    &&& s.len() == 36
    &&& forall|i: int|
        0 <= i < 36 ==> if is_uuid_hyphen_index(i) {
            s[i] == '-'
        } else {
            is_hex_digit(#[trigger] s[i])
        }
}

/// The hyphenated form with lower-case digits, as a UUID is displayed.
pub open spec fn is_lower_hyphenated_uuid(s: Seq<char>) -> bool {
    &&& is_hyphenated_uuid(s)
    &&& forall|i: int| 0 <= i < 36 && !is_uuid_hyphen_index(i) ==> is_lower_hex_digit(#[trigger] s[i])
}

/// Thirty-two hexadecimal digits.
pub open spec fn is_simple_uuid(s: Seq<char>) -> bool {
    s.len() == 32 && forall|i: int| 0 <= i < 32 ==> is_hex_digit(#[trigger] s[i])
}

/// A hyphenated UUID in braces.
pub open spec fn is_braced_uuid(s: Seq<char>) -> bool {
    &&& s.len() == 38
    &&& s[0] == '{'
    &&& s[37] == '}'
    &&& is_hyphenated_uuid(s.subrange(1, 37))
}

/// `urn:uuid:` (in any letter case) followed by a hyphenated UUID.
pub open spec fn is_urn_uuid(s: Seq<char>) -> bool {
    &&& s.len() == 45
    &&& crate::text::eq_ignore_ascii_case(s.take(9), "urn:uuid:"@)
    &&& is_hyphenated_uuid(s.skip(9))
}

/// The texts that `Uuid::parse_str` accepts: the simple, hyphenated, braced and URN forms.
pub open spec fn is_uuid_text(s: Seq<char>) -> bool {
    is_simple_uuid(s) || is_hyphenated_uuid(s) || is_braced_uuid(s) || is_urn_uuid(s)
}

/// A fresh random UUID.
/// Trusted: `Uuid::new_v4` (uuid). Random, so nothing is promised of the value.
#[verifier::external_body]
fn random_uuid() -> uuid::Uuid {
    uuid::Uuid::new_v4()
}

/// The displayed form of a UUID.
/// Trusted: `Uuid`'s `Display` (uuid), which writes the lower-case hyphenated form
/// (`LowerHex` of `as_hyphenated`). Which digits appear depends on the UUID, which is
/// opaque here, so only the shape is stated.
#[verifier::external_body]
fn uuid_to_text(u: &uuid::Uuid) -> (r: String)
    ensures
        is_lower_hyphenated_uuid(r@),
{
    u.to_string()
}

/// Whether `s` is a UUID in one of the accepted forms.
/// Trusted: `Uuid::parse_str` (uuid): it accepts exactly 32 hex digits, the 36-byte
/// hyphenated form, that form in braces (38 bytes), and `urn:uuid:` in any letter case
/// before it (45 bytes); hex digits may be of either case. Every accepted text is ASCII,
/// so its byte length is its character length.
#[verifier::external_body]
fn uuid_parses(s: &str) -> (r: bool)
    ensures
        r == is_uuid_text(s@),
{
    uuid::Uuid::parse_str(s).is_ok()
}

/// A fresh random identifier for a todo, in the lower-case hyphenated UUID form.
pub fn new_todo_id() -> (r: String)
    ensures
        is_lower_hyphenated_uuid(r@),
{
    let u = random_uuid();
    uuid_to_text(&u)
}

/// The byte length of a text in UTF-8.
pub open spec fn utf8_len(s: Seq<char>) -> nat {
    vstd::utf8::encode_utf8(s).len()
}

/// Every text that parses as a UUID is ASCII of at most 45 characters, hence at most
/// 45 bytes long.
pub proof fn lemma_uuid_text_is_short(s: Seq<char>)
    requires
        is_uuid_text(s),
    ensures
        vstd::utf8::is_ascii_chars(s),
        utf8_len(s) == s.len(),
        s.len() <= 45,
{
    assert forall|i: int| 0 <= i < s.len() implies '\0' <= #[trigger] s[i] <= '\u{7f}' by {
        if is_simple_uuid(s) {
            assert(is_hex_digit(s[i]));
        } else if is_hyphenated_uuid(s) {
            if !is_uuid_hyphen_index(i) {
                assert(is_hex_digit(s[i]));
            }
        } else if is_braced_uuid(s) {
            if 1 <= i < 37 {
                let t = s.subrange(1, 37);
                assert(t[i - 1] == s[i]);
                if !is_uuid_hyphen_index(i - 1) {
                    assert(is_hex_digit(t[i - 1]));
                }
            }
        } else {
            if i < 9 {
                reveal_strlit("urn:uuid:");
                let p = s.take(9);
                assert("urn:uuid:"@.len() == 9);
                assert('\0' <= "urn:uuid:"@[i] <= '\u{7f}');
                assert(crate::text::ascii_lower_seq(p)[i] == crate::text::ascii_lower_seq(
                    "urn:uuid:"@,
                )[i]);
                assert(p[i] == s[i]);
            } else {
                let t = s.skip(9);
                assert(t[i - 9] == s[i]);
                if !is_uuid_hyphen_index(i - 9) {
                    assert(is_hex_digit(t[i - 9]));
                }
            }
        }
    }
    vstd::utf8::is_ascii_chars_encode_utf8(s);
}

/// An identifier that edit, delete and complete requests may name: a UUID in one of the
/// accepted forms (such a text is never longer than 64 bytes).
pub open spec fn is_valid_todo_id_text(s: Seq<char>) -> bool {
    is_uuid_text(s)
}

/// Whether `id` names a todo in an accepted form: at most 64 bytes and a UUID.
pub fn is_valid_todo_id(id: &str) -> (r: bool)
    ensures
        r == is_valid_todo_id_text(id@),
        r ==> utf8_len(id@) <= 64,
{
    if id.len() > 64 {
        proof {
            if is_uuid_text(id@) {
                lemma_uuid_text_is_short(id@);
            }
        }
        return false;
    }
    let r = uuid_parses(id);
    proof {
        if r {
            lemma_uuid_text_is_short(id@);
        }
    }
    r
}

/// Every identifier this library generates is one that requests may name.
pub proof fn lemma_new_ids_are_valid(s: Seq<char>)
    requires
        is_lower_hyphenated_uuid(s),
    ensures
        is_valid_todo_id_text(s),
{
}

// ---- todo items -----------------------------------------------------------------

/// A new, open todo with the given text, a fresh identifier, and both timestamps set
/// to the current time.
pub fn make_todo(text: String) -> (r: TodoItem)
    ensures
        r.text@ == text@,
        is_lower_hyphenated_uuid(r.id@),
        !r.completed,
        r.created_at_ms == r.updated_at_ms,
        r.completed_at_ms is None,
{
    let now = now_ms();
    TodoItem {
        id: new_todo_id(),
        text,
        completed: false,
        created_at_ms: now,
        updated_at_ms: now,
        completed_at_ms: None,
    }
}

/// The item after it was completed at time `now`.
pub open spec fn completed_at(item: TodoItem, now: i64) -> TodoItem {
    TodoItem { completed: true, completed_at_ms: Some(now), updated_at_ms: now, ..item }
}

/// Marks the item completed at time `now`; the completion time and the update time
/// become `now`, the rest stays.
pub fn mark_completed_at(item: &mut TodoItem, now: i64)
    ensures
        *final(item) == completed_at(*old(item), now),
{
    item.completed = true;
    item.completed_at_ms = Some(now);
    item.updated_at_ms = now;
}

/// Marks the item completed now.
pub fn mark_completed(item: &mut TodoItem)
    ensures
        exists|now: i64| *final(item) == completed_at(*old(item), now),
{
    let now = now_ms();
    mark_completed_at(item, now);
}

} // verus!

verus! {

/// The mathematical value of a todo: its texts as character sequences.
pub struct TodoView {
    pub id: Seq<char>,
    pub text: Seq<char>,
    pub completed: bool,
    pub created_at_ms: i64,
    pub updated_at_ms: i64,
    pub completed_at_ms: Option<i64>,
}

impl View for TodoItem {
    type V = TodoView;

    open spec fn view(&self) -> TodoView {
        TodoView {
            id: self.id@,
            text: self.text@,
            completed: self.completed,
            created_at_ms: self.created_at_ms,
            updated_at_ms: self.updated_at_ms,
            completed_at_ms: self.completed_at_ms,
        }
    }
}

/// The value of a list of todos.
pub open spec fn todos_view(v: Seq<TodoItem>) -> Seq<TodoView> {
    v.map_values(|t: TodoItem| t@)
}

/// A todo after completion at time `now`.
pub open spec fn completed_view(t: TodoView, now: i64) -> TodoView {
    TodoView { completed: true, completed_at_ms: Some(now), updated_at_ms: now, ..t }
}

/// The position of the first todo whose identifier is `id`, if any.
pub open spec fn first_with_id(s: Seq<TodoView>, id: Seq<char>) -> Option<int>
    decreases s.len(),
{
    if s.len() == 0 {
        None
    } else {
        match first_with_id(s.drop_last(), id) {
            Some(i) => Some(i),
            None => if s.last().id == id {
                Some(s.len() - 1)
            } else {
                None
            },
        }
    }
}

/// `first_with_id` finds the first match, and finds one whenever there is one.
pub proof fn lemma_first_with_id(s: Seq<TodoView>, id: Seq<char>)
    ensures
        match first_with_id(s, id) {
            Some(i) => 0 <= i < s.len() && s[i].id == id && forall|j: int|
                0 <= j < i ==> #[trigger] s[j].id != id,
            None => forall|j: int| 0 <= j < s.len() ==> #[trigger] s[j].id != id,
        },
    decreases s.len(),
{
    if s.len() > 0 {
        let p = s.drop_last();
        lemma_first_with_id(p, id);
        match first_with_id(p, id) {
            Some(i) => {
                assert forall|j: int| 0 <= j < i implies #[trigger] s[j].id != id by {
                    assert(s[j] == p[j]);
                }
                assert(s[i] == p[i]);
            },
            None => {
                assert forall|j: int| 0 <= j < s.len() - 1 implies #[trigger] s[j].id != id by {
                    assert(s[j] == p[j]);
                }
            },
        }
    }
}

/// Once a prefix holds a match, the whole list has the same first match.
pub proof fn lemma_first_with_id_prefix(s: Seq<TodoView>, k: int, id: Seq<char>)
    requires
        0 <= k <= s.len(),
        first_with_id(s.take(k), id) is Some,
    ensures
        first_with_id(s, id) == first_with_id(s.take(k), id),
    decreases s.len() - k,
{
    if k == s.len() {
        assert(s.take(k) =~= s);
    } else {
        let p = s.drop_last();
        assert(p.take(k) =~= s.take(k));
        lemma_first_with_id_prefix(p, k, id);
    }
}

/// The todos without those whose identifier is `id`, in their order.
pub open spec fn without_id(s: Seq<TodoView>, id: Seq<char>) -> Seq<TodoView>
    decreases s.len(),
{
    if s.len() == 0 {
        s
    } else if s.last().id == id {
        without_id(s.drop_last(), id)
    } else {
        without_id(s.drop_last(), id).push(s.last())
    }
}

/// Removing leaves exactly the todos with another identifier.
pub proof fn lemma_without_id(s: Seq<TodoView>, id: Seq<char>)
    ensures
        without_id(s, id).len() <= s.len(),
        without_id(s, id).len() == s.len() ==> without_id(s, id) == s,
        without_id(s, id).len() == s.len() <==> forall|j: int|
            0 <= j < s.len() ==> #[trigger] s[j].id != id,
        forall|j: int|
            0 <= j < without_id(s, id).len() ==> #[trigger] without_id(s, id)[j].id != id,
    decreases s.len(),
{
    if s.len() > 0 {
        let p = s.drop_last();
        lemma_without_id(p, id);
        if forall|j: int| 0 <= j < s.len() ==> #[trigger] s[j].id != id {
            assert forall|j: int| 0 <= j < p.len() implies #[trigger] p[j].id != id by {
                assert(p[j] == s[j]);
            }
        }
        if without_id(s, id).len() == s.len() {
            assert(s.last().id != id);
            assert(p.push(s.last()) =~= s);
            assert forall|j: int| 0 <= j < s.len() implies #[trigger] s[j].id != id by {
                if j < s.len() - 1 {
                    assert(p[j] == s[j]);
                }
            }
        }
    }
}

/// Removing by identifier keeps exactly the todos with another identifier, in their
/// order: the result is the list filtered by "the identifier differs".
pub proof fn lemma_without_id_is_filter(s: Seq<TodoView>, id: Seq<char>)
    ensures
        without_id(s, id) == s.filter(|t: TodoView| t.id != id),
    decreases s.len(),
{
    reveal(Seq::filter);
    if s.len() > 0 {
        lemma_without_id_is_filter(s.drop_last(), id);
    }
}

/// The number of todos that are not completed.
pub open spec fn open_count(s: Seq<TodoView>) -> nat
    decreases s.len(),
{
    if s.len() == 0 {
        0
    } else {
        open_count(s.drop_last()) + if s.last().completed {
            0nat
        } else {
            1nat
        }
    }
}

pub proof fn lemma_open_count_bound(s: Seq<TodoView>)
    ensures
        open_count(s) <= s.len(),
    decreases s.len(),
{
    if s.len() > 0 {
        lemma_open_count_bound(s.drop_last());
    }
}

} // verus!

verus! {

/// The position of the first todo whose identifier is `id`.
pub fn find_todo(todos: &Vec<TodoItem>, id: &str) -> (r: Option<usize>)
    ensures
        r == match first_with_id(todos_view(todos@), id@) {
            Some(i) => Some(i as usize),
            None => None::<usize>,
        },
{
    let target = id.to_owned();
    let ghost s = todos_view(todos@);
    let mut i: usize = 0;
    while i < todos.len()
        invariant
            i <= todos.len(),
            s == todos_view(todos@),
            target@ == id@,
            first_with_id(s.take(i as int), id@) is None,
        decreases todos.len() - i,
    {
        assert(s.take(i + 1).drop_last() =~= s.take(i as int));
        if todos[i].id == target {
            proof {
                lemma_first_with_id_prefix(s, i + 1, id@);
            }
            return Some(i);
        }
        i = i + 1;
    }
    assert(s.take(i as int) =~= s);
    None
}

/// The todos after completing the first one named `id` at time `now`, and whether
/// anything changed: only an open todo is completed; a missing or already completed
/// one leaves the list as it was.
pub open spec fn complete_todo_in(s: Seq<TodoView>, id: Seq<char>, now: i64) -> (Seq<TodoView>, bool) {
    match first_with_id(s, id) {
        Some(i) => if s[i].completed {
            (s, false)
        } else {
            (s.update(i, completed_view(s[i], now)), true)
        },
        None => (s, false),
    }
}

/// Completes the first todo named `id` at time `now`; returns whether it was open.
pub fn mark_todo_completed_at(todos: &mut Vec<TodoItem>, id: &str, now: i64) -> (r: bool)
    ensures
        (todos_view(final(todos)@), r) == complete_todo_in(todos_view(old(todos)@), id@, now),
{
    let ghost s = todos_view(todos@);
    proof {
        lemma_first_with_id(s, id@);
    }
    let found = find_todo(todos, id);
    assert(s.len() == todos.len());
    match found {
        Some(i) => {
            assert(first_with_id(s, id@) == Some(i as int));
            assert(s[i as int] == todos@[i as int]@);
            if todos[i].completed {
                return false;
            }
            mark_completed_at(&mut todos[i], now);
            assert(todos_view(todos@) =~= s.update(i as int, completed_view(s[i as int], now)));
            true
        },
        None => false,
    }
}

/// Completes the first todo named `id` now; returns whether it was open.
pub fn mark_todo_completed(todos: &mut Vec<TodoItem>, id: &str) -> (r: bool)
    ensures
        exists|now: i64|
            (todos_view(final(todos)@), r) == complete_todo_in(todos_view(old(todos)@), id@, now),
{
    let now = now_ms();
    mark_todo_completed_at(todos, id, now)
}

/// The todos whose identifier is not `id`, in their order.
pub fn remove_todos_with_id(todos: Vec<TodoItem>, id: &str) -> (r: Vec<TodoItem>)
    ensures
        todos_view(r@) == without_id(todos_view(todos@), id@),
        todos_view(r@) == todos_view(todos@).filter(|t: TodoView| t.id != id@),
{
    let target = id.to_owned();
    let ghost orig = todos@;
    let ghost s = todos_view(todos@);
    let mut kept: Vec<TodoItem> = Vec::new();
    for item in it: todos.into_iter()
        invariant
            it.seq() == orig,
            s == todos_view(orig),
            target@ == id@,
            todos_view(kept@) == without_id(s.take(it.index() as int), id@),
    {
        let ghost k = it.index() as int;
        assert(s.take(k + 1).drop_last() =~= s.take(k));
        assert(item == orig[k]);
        if item.id != target {
            let ghost before = kept@;
            kept.push(item);
            assert(todos_view(kept@) =~= todos_view(before).push(s[k]));
        }
    }
    assert(s.take(orig.len() as int) =~= s);
    proof {
        lemma_without_id_is_filter(s, id@);
    }
    kept
}

/// How many todos are open, how many of those the stage shows under the plate limit,
/// how many it holds back, and how many are completed.
#[derive(Debug, Clone, Copy, PartialEq, Eq, Structural)]
pub struct StageCounts {
    pub visible_count: usize,
    pub hidden_count: usize,
    pub completed_count: usize,
}

/// The stage counts for `s` under a limit of `limit` plates.
pub open spec fn stage_counts(s: Seq<TodoView>, limit: usize) -> StageCounts {
    let open = open_count(s);
    StageCounts {
        visible_count: if open < limit { open as usize } else { limit },
        hidden_count: if open > limit { (open - limit) as usize } else { 0 },
        completed_count: (s.len() - open) as usize,
    }
}

/// Counts open todos, splits them into shown and held back under `limit`, and counts
/// completed todos.
pub fn count_stage(todos: &Vec<TodoItem>, limit: usize) -> (r: StageCounts)
    ensures
        r == stage_counts(todos_view(todos@), limit),
{
    let ghost s = todos_view(todos@);
    let mut open: usize = 0;
    let mut i: usize = 0;
    while i < todos.len()
        invariant
            i <= todos.len(),
            s == todos_view(todos@),
            open == open_count(s.take(i as int)),
        decreases todos.len() - i,
    {
        assert(s.take(i + 1).drop_last() =~= s.take(i as int));
        proof {
            lemma_open_count_bound(s.take(i as int));
        }
        if !todos[i].completed {
            open = open + 1;
        }
        i = i + 1;
    }
    assert(s.take(i as int) =~= s);
    proof {
        lemma_open_count_bound(s);
    }
    let visible = if open < limit { open } else { limit };
    let hidden = open.saturating_sub(limit);
    let completed = todos.len().saturating_sub(open);
    StageCounts { visible_count: visible, hidden_count: hidden, completed_count: completed }
}

/// The shown and held-back plates together are all open todos, and open and completed
/// todos together are all todos.
pub proof fn lemma_stage_counts_partition(s: Seq<TodoView>, limit: usize)
    requires
        s.len() <= usize::MAX,
    ensures
        stage_counts(s, limit).visible_count + stage_counts(s, limit).hidden_count == open_count(s),
        stage_counts(s, limit).visible_count <= limit,
        stage_counts(s, limit).completed_count + open_count(s) == s.len(),
{
    lemma_open_count_bound(s);
}

} // verus!

verus! {

/// The texts of the sample todos a first start fills the list with, oldest first.
pub open spec fn seed_texts() -> Seq<Seq<char>> {
    seq![
        "整理今天最重要的三件事"@,
        "给项目写一个最小可运行版本"@,
        "确认全局双击 J 是否稳定触发"@,
        "优化盘子爆炸展开的节奏"@,
        "补充 5 条交互边界测试"@,
        "检查 JSON 持久化是否可靠"@,
        "回顾今天完成的工作记录"@,
        "清理一批不再需要的任务"@,
        "给明天预留一个创意任务"@,
        "收尾并同步当前版本说明"@,
    ]
}

/// The spacing between the creation times of neighbouring sample todos, in milliseconds.
pub const SEED_SPACING_MS: i64 = 60_000;

/// `r` holds the sample todos, created one minute apart starting at `base`: open, with
/// lower-case hyphenated UUIDs as identifiers and the texts of `seed_texts`.
pub open spec fn is_seed_list(r: Seq<TodoView>, base: i64) -> bool {
    &&& r.len() == seed_texts().len()
    &&& forall|i: int|
        0 <= i < r.len() ==> {
            &&& (#[trigger] r[i]).text == seed_texts()[i]
            &&& r[i].created_at_ms == base + i * SEED_SPACING_MS
            &&& r[i].updated_at_ms == base + i * SEED_SPACING_MS
            &&& !r[i].completed
            &&& r[i].completed_at_ms is None
            &&& is_lower_hyphenated_uuid(r[i].id)
        }
}

/// The sample todos with creation times `base`, `base + 1 min`, and so on.
pub fn seeded_todos_from(base: i64) -> (r: Vec<TodoItem>)
    requires
        base <= i64::MAX - 9 * SEED_SPACING_MS,
    ensures
        is_seed_list(todos_view(r@), base),
{
    let templates: [&str; 10] = [
        "整理今天最重要的三件事",
        "给项目写一个最小可运行版本",
        "确认全局双击 J 是否稳定触发",
        "优化盘子爆炸展开的节奏",
        "补充 5 条交互边界测试",
        "检查 JSON 持久化是否可靠",
        "回顾今天完成的工作记录",
        "清理一批不再需要的任务",
        "给明天预留一个创意任务",
        "收尾并同步当前版本说明",
    ];
    assert(templates@.map_values(|t: &str| t@) =~= seed_texts());
    let mut todos: Vec<TodoItem> = Vec::new();
    let mut index: usize = 0;
    while index < 10
        invariant
            index <= 10,
            base <= i64::MAX - 9 * SEED_SPACING_MS,
            templates@.map_values(|t: &str| t@) == seed_texts(),
            todos@.len() == index,
            forall|i: int|
                0 <= i < index ==> {
                    &&& (#[trigger] todos@[i]).text@ == seed_texts()[i]
                    &&& todos@[i].created_at_ms == base + i * SEED_SPACING_MS
                    &&& todos@[i].updated_at_ms == base + i * SEED_SPACING_MS
                    &&& !todos@[i].completed
                    &&& todos@[i].completed_at_ms is None
                    &&& is_lower_hyphenated_uuid(todos@[i].id@)
                },
        decreases 10 - index,
    {
        assert(templates@.map_values(|t: &str| t@)[index as int] == templates@[index as int]@);
        let mut todo = make_todo(templates[index].to_owned());
        let ts = base + (index as i64) * SEED_SPACING_MS;
        todo.created_at_ms = ts;
        todo.updated_at_ms = ts;
        todos.push(todo);
        index = index + 1;
    }
    assert(is_seed_list(todos_view(todos@), base)) by {
        assert forall|i: int| 0 <= i < todos@.len() implies todos_view(todos@)[i] == (
        #[trigger] todos@[i])@ by {}
    }
    todos
}

/// The sample todos for a first start when the clock reads `now`: created one minute
/// apart, the oldest ten minutes and the newest one minute before `now`.
pub fn seeded_todos_at(now: i64) -> (r: Vec<TodoItem>)
    requires
        now >= i64::MIN + 10 * SEED_SPACING_MS,
    ensures
        is_seed_list(todos_view(r@), (now - 10 * SEED_SPACING_MS) as i64),
{
    seeded_todos_from(now - 10 * SEED_SPACING_MS)
}

/// The sample todos of a first start at `now` all lie in the ten minutes before `now`,
/// one minute apart in list order: the oldest exactly ten minutes and the newest exactly
/// one minute before `now`.
pub proof fn lemma_seed_list_spans_last_ten_minutes(r: Seq<TodoView>, now: i64)
    requires
        now >= i64::MIN + 10 * SEED_SPACING_MS,
        is_seed_list(r, (now - 10 * SEED_SPACING_MS) as i64),
    ensures
        r.len() == 10,
        r[0].created_at_ms == now - 10 * SEED_SPACING_MS,
        r[r.len() - 1].created_at_ms == now - SEED_SPACING_MS,
        forall|i: int|
            0 <= i < r.len() ==> now - 10 * SEED_SPACING_MS <= #[trigger] r[i].created_at_ms < now,
        forall|i: int, k: int|
            0 <= i < k < r.len() ==> #[trigger] r[i].created_at_ms + (k - i) * SEED_SPACING_MS
                == #[trigger] r[k].created_at_ms,
{
    assert(seed_texts().len() == 10);
    assert(r[0].created_at_ms == now - 10 * SEED_SPACING_MS);
    assert(r[9].created_at_ms == now - 10 * SEED_SPACING_MS + 9 * SEED_SPACING_MS);
    assert forall|i: int| 0 <= i < r.len() implies now - 10 * SEED_SPACING_MS
        <= #[trigger] r[i].created_at_ms < now by {
        assert(r[i].created_at_ms == now - 10 * SEED_SPACING_MS + i * SEED_SPACING_MS);
    }
    assert forall|i: int, k: int| 0 <= i < k < r.len() implies #[trigger] r[i].created_at_ms + (k
        - i) * SEED_SPACING_MS == #[trigger] r[k].created_at_ms by {
        assert(r[i].created_at_ms == now - 10 * SEED_SPACING_MS + i * SEED_SPACING_MS);
        assert(r[k].created_at_ms == now - 10 * SEED_SPACING_MS + k * SEED_SPACING_MS);
    }
}

/// The sample todos for a first start, the newest created one minute before now; when
/// the clock reads less than ten minutes after the earliest representable time, the list
/// starts at that earliest time instead.
pub fn seeded_todos() -> (r: Vec<TodoItem>)
    ensures
        exists|base: i64| #[trigger] is_seed_list(todos_view(r@), base),
{
    let now = now_ms();
    if now >= i64::MIN + 10 * SEED_SPACING_MS {
        seeded_todos_at(now)
    } else {
        seeded_todos_from(i64::MIN)
    }
}

} // verus!
