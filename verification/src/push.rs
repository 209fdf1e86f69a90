//! Push notification configs and how a handler pages through them.

use vstd::prelude::*;
use vstd::string::*;
use crate::errors::{A2AError, PUSH_NOTIFICATION_NOT_SUPPORTED};
use crate::framing::{ascii_chars, decimal_string};
use crate::text::{chars_of, copy_string, parse_usize, spec_parse_usize, spec_decimal, lemma_parse_decimal};

verus! {

/// How a push notification receiver authenticates the sender.
#[derive(Clone, Debug)]
pub struct AuthenticationInfo {
    pub scheme: String,
    pub credentials: Option<String>,
}

/// Where and how to send push notifications.
#[derive(Clone, Debug)]
pub struct PushNotificationConfig {
    pub url: String,
    pub id: Option<String>,
    pub token: Option<String>,
    pub authentication: Option<AuthenticationInfo>,
}

/// A push notification config bound to a task.
#[derive(Debug)]
pub struct TaskPushNotificationConfig {
    pub task_id: String,
    pub url: String,
    pub id: Option<String>,
    pub token: Option<String>,
    pub authentication: Option<AuthenticationInfo>,
    pub tenant: Option<String>,
}

/// A request to save a push notification config for a task.
pub struct CreateTaskPushNotificationConfigRequest {
    pub task_id: String,
    pub config: PushNotificationConfig,
    pub tenant: Option<String>,
}

impl TaskPushNotificationConfig {
    /// The config bound to the task, under the tenant.
    pub fn bind(task_id: String, config: PushNotificationConfig, tenant: Option<String>) -> (res: TaskPushNotificationConfig)
        ensures
            res.task_id == task_id,
            res.url == config.url,
            res.id == config.id,
            res.token == config.token,
            res.authentication == config.authentication,
            res.tenant == tenant,
    {
        TaskPushNotificationConfig {
            task_id,
            url: config.url,
            id: config.id,
            token: config.token,
            authentication: config.authentication,
            tenant,
        }
    }
}

/// One page of a task's push notification configs.
pub struct ListTaskPushNotificationConfigsResponse {
    pub configs: Vec<TaskPushNotificationConfig>,
    pub next_page_token: Option<String>,
}

/// The store a handler keeps push configs in, when it has one; otherwise the error
/// `push notifications not supported`.
pub fn push_config_store<S>(store: &Option<S>) -> (res: Result<&S, A2AError>)
    ensures
        match store {
            Some(s) => res == Ok::<&S, A2AError>(s),
            None => res matches Err(e) && e.code == PUSH_NOTIFICATION_NOT_SUPPORTED
                && e.message@ == "push notifications not supported"@,
        },
{
    match store {
        Some(s) => Ok(s),
        None => Err(A2AError::push_notification_not_supported()),
    }
}

/// Lexicographic order of strings by character (the order of `String`'s `Ord`, since UTF-8
/// keeps the order of code points).
pub open spec fn chars_le(a: Seq<char>, b: Seq<char>) -> bool
    decreases a.len(),
{
    if a.len() == 0 {
        true
    } else if b.len() == 0 {
        false
    } else if (a[0] as u32) < (b[0] as u32) {
        true
    } else if (a[0] as u32) > (b[0] as u32) {
        false
    } else {
        chars_le(a.drop_first(), b.drop_first())
    }
}

/// The order of `Option<String>` ids: no id first, then ids by their text.
pub open spec fn id_le(a: Option<String>, b: Option<String>) -> bool {
    match (a, b) {
        (None, _) => true,
        (Some(_), None) => false,
        (Some(x), Some(y)) => chars_le(x@, y@),
    }
}

/// Inserts `x` after every element whose id is not greater than its own.
pub open spec fn spec_insert_by_id(s: Seq<PushNotificationConfig>, x: PushNotificationConfig) -> Seq<PushNotificationConfig>
    decreases s.len(),
{
    if s.len() == 0 {
        seq![x]
    } else if id_le(x.id, s.last().id) && !id_le(s.last().id, x.id) {
        spec_insert_by_id(s.drop_last(), x).push(s.last())
    } else {
        s.push(x)
    }
}

/// The configs sorted by id, equal ids in their original order (a stable sort, as
/// `sort_by` does).
pub open spec fn spec_sort_by_id(s: Seq<PushNotificationConfig>) -> Seq<PushNotificationConfig>
    decreases s.len(),
{
    if s.len() == 0 {
        s
    } else {
        spec_insert_by_id(spec_sort_by_id(s.drop_last()), s.last())
    }
}

fn chars_le_exec(a: &Vec<char>, b: &Vec<char>) -> (res: bool)
    ensures
        res == chars_le(a@, b@),
{
    let mut i: usize = 0;
    assert(a@.subrange(0, a@.len() as int) =~= a@);
    assert(b@.subrange(0, b@.len() as int) =~= b@);
    while i < a.len() && i < b.len() && a[i] == b[i]
        invariant
            i <= a@.len(),
            i <= b@.len(),
            chars_le(a@, b@) == chars_le(a@.subrange(i as int, a@.len() as int), b@.subrange(i as int, b@.len() as int)),
        decreases a.len() - i,
    {
        let ghost sa = a@.subrange(i as int, a@.len() as int);
        let ghost sb = b@.subrange(i as int, b@.len() as int);
        assert(sa.drop_first() =~= a@.subrange(i + 1, a@.len() as int));
        assert(sb.drop_first() =~= b@.subrange(i + 1, b@.len() as int));
        i += 1;
    }
    let ghost sa = a@.subrange(i as int, a@.len() as int);
    let ghost sb = b@.subrange(i as int, b@.len() as int);
    if i == a.len() {
        assert(sa.len() == 0);
        true
    } else if i == b.len() {
        assert(sa.len() > 0 && sb.len() == 0);
        false
    } else {
        assert(sa[0] == a@[i as int] && sb[0] == b@[i as int]);
        assert(a@[i as int] != b@[i as int]);
        proof {
            if (a@[i as int] as u32) == (b@[i as int] as u32) {
                vstd::utf8::char_u32_cast(a@[i as int], a@[i as int] as u32);
                vstd::utf8::char_u32_cast(b@[i as int], b@[i as int] as u32);
                assert(a@[i as int] == b@[i as int]);
            }
        }
        (a[i] as u32) < (b[i] as u32)
    }
}

fn id_le_exec(a: &Option<String>, b: &Option<String>) -> (res: bool)
    ensures
        res == id_le(*a, *b),
{
    match (a, b) {
        (None, _) => true,
        (Some(_), None) => false,
        (Some(x), Some(y)) => chars_le_exec(&chars_of(x.as_str()), &chars_of(y.as_str())),
    }
}

proof fn lemma_insert_len(s: Seq<PushNotificationConfig>, x: PushNotificationConfig)
    ensures
        spec_insert_by_id(s, x).len() == s.len() + 1,
    decreases s.len(),
{
    if s.len() > 0 && id_le(x.id, s.last().id) && !id_le(s.last().id, x.id) {
        lemma_insert_len(s.drop_last(), x);
    }
}

/// Inserts `x` into `v` where [`spec_insert_by_id`] puts it.
fn insert_by_id(v: &mut Vec<PushNotificationConfig>, x: PushNotificationConfig)
    ensures
        final(v)@ == spec_insert_by_id(old(v)@, x),
{
    let ghost s = v@;
    let mut k = v.len();
    assert(s.subrange(0, s.len() as int) =~= s);
    assert(spec_insert_by_id(s, x) + s.subrange(s.len() as int, s.len() as int) =~= spec_insert_by_id(s, x));
    // `k` walks down past the elements whose id is greater than `x`'s.
    while k > 0 && id_le_exec(&x.id, &v[k - 1].id) && !id_le_exec(&v[k - 1].id, &x.id)
        invariant
            v@ == s,
            k <= s.len(),
            spec_insert_by_id(s, x) == spec_insert_by_id(s.subrange(0, k as int), x) + s.subrange(k as int, s.len() as int),
        decreases k,
    {
        let ghost p = s.subrange(0, k as int);
        assert(p.drop_last() =~= s.subrange(0, k - 1));
        assert(p.last() == s[k - 1]);
        assert(spec_insert_by_id(p, x) == spec_insert_by_id(p.drop_last(), x).push(p.last()));
        assert(spec_insert_by_id(s.subrange(0, k - 1), x).push(s[k - 1]) + s.subrange(k as int, s.len() as int)
            =~= spec_insert_by_id(s.subrange(0, k - 1), x) + s.subrange(k - 1, s.len() as int));
        k -= 1;
    }
    let ghost p = s.subrange(0, k as int);
    assert(spec_insert_by_id(p, x) =~= p.push(x)) by {
        if k > 0 {
            assert(p.last() == s[k - 1]);
        }
    }
    v.insert(k, x);
    assert(v@ =~= p.push(x) + s.subrange(k as int, s.len() as int));
}

/// Sorts the configs by id, keeping the order of equal ids.
pub fn sort_by_id(configs: Vec<PushNotificationConfig>) -> (res: Vec<PushNotificationConfig>)
    ensures
        res@ == spec_sort_by_id(configs@),
{
    let mut input = configs;
    let ghost all = input@;
    let mut sorted: Vec<PushNotificationConfig> = Vec::new();
    let mut taken: usize = 0;
    let total: usize = input.len();
    assert(all.len() == total);
    assert(all.subrange(0, 0) =~= Seq::<PushNotificationConfig>::empty());
    assert(all.subrange(0, all.len() as int) =~= all);
    while input.len() > 0
        invariant
            taken + input@.len() == all.len(),
            all.len() <= usize::MAX,
            input@ == all.subrange(taken as int, all.len() as int),
            sorted@ == spec_sort_by_id(all.subrange(0, taken as int)),
        decreases input@.len(),
    {
        let x = input.remove(0);
        let ghost pre = all.subrange(0, taken as int);
        assert(all.subrange(0, taken + 1).drop_last() =~= pre);
        assert(all.subrange(0, taken + 1).last() == x);
        insert_by_id(&mut sorted, x);
        taken += 1;
        assert(input@ =~= all.subrange(taken as int, all.len() as int));
    }
    assert(all.subrange(0, taken as int) =~= all);
    sorted
}

/// The page size a listing uses: the requested size when positive, else 50.
pub open spec fn spec_page_size(requested: Option<i32>) -> nat {
    match requested {
        Some(n) => if n > 0 { n as nat } else { 50 },
        None => 50,
    }
}

/// Where a page starts: the token read as a number (0 when absent or not a number), at most
/// the number of configs.
pub open spec fn spec_page_start(token: Option<String>, len: nat) -> nat {
    let k: nat = match token {
        Some(t) => match spec_parse_usize(vstd::utf8::encode_utf8(t@)) {
            Some(n) => n as nat,
            None => 0,
        },
        None => 0,
    };
    if k < len { k } else { len }
}

/// Where a page ends.
pub open spec fn spec_page_end(start: nat, size: nat, len: nat) -> nat {
    if start + size < len { start + size } else { len }
}

/// The config bound to the task, under the tenant.
pub open spec fn bound_to(c: TaskPushNotificationConfig, task_id: Seq<char>, tenant: Option<String>, p: PushNotificationConfig) -> bool {
    &&& c.task_id@ == task_id
    &&& c.url == p.url
    &&& c.id == p.id
    &&& c.token == p.token
    &&& c.authentication == p.authentication
    &&& match (c.tenant, tenant) {
        (Some(a), Some(b)) => a@ == b@,
        (None, None) => true,
        _ => false,
    }
}

pub fn copy_opt(s: &Option<String>) -> (res: Option<String>)
    ensures
        match (res, *s) {
            (Some(a), Some(b)) => a@ == b@,
            (None, None) => true,
            _ => false,
        },
{
    match s {
        Some(x) => Some(copy_string(x.as_str())),
        None => None,
    }
}

/// A page token read as a number, as `str::parse::<usize>` reads it.
fn token_number(t: &str) -> (res: Option<usize>)
    ensures
        res == spec_parse_usize(vstd::utf8::encode_utf8(t@)),
{
    parse_usize(t.as_bytes())
}

/// The page of a task's push notification configs that a listing returns.
///
/// The configs are sorted by id (stably); the page starts at the number the token holds
/// (0 without a usable token, at most the count) and holds up to the page size (the
/// requested size when positive, else 50). Each config is bound to the task and tenant.
/// The next token is the index after the page, while configs remain.
pub fn list_push_configs_page(
    task_id: &str,
    tenant: &Option<String>,
    configs: Vec<PushNotificationConfig>,
    page_size: Option<i32>,
    page_token: &Option<String>,
) -> (res: ListTaskPushNotificationConfigsResponse)
    ensures
        ({
            let sorted = spec_sort_by_id(configs@);
            let start = spec_page_start(*page_token, sorted.len());
            let end = spec_page_end(start, spec_page_size(page_size), sorted.len());
            &&& res.configs@.len() == end - start
            &&& forall|i: int| 0 <= i < end - start ==> #[trigger] bound_to(res.configs@[i], task_id@, *tenant, sorted[start + i])
            &&& end < sorted.len() ==> (res.next_page_token matches Some(t) && t@ == ascii_chars(spec_decimal(end)))
            &&& end >= sorted.len() ==> res.next_page_token is None
        }),
{
    let mut sorted = sort_by_id(configs);
    let ghost all = sorted@;
    let len = sorted.len();
    let size: usize = match page_size {
        Some(n) => if n > 0 { n as usize } else { 50 },
        None => 50,
    };
    let k: usize = match page_token {
        Some(t) => match token_number(t.as_str()) {
            Some(n) => n,
            None => 0,
        },
        None => 0,
    };
    let start = if k < len { k } else { len };
    let end = if size >= len - start { len } else { start + size };
    assert(start as nat == spec_page_start(*page_token, all.len()));
    assert(size as nat == spec_page_size(page_size));
    assert(end as nat == spec_page_end(start as nat, size as nat, all.len()));
    let _tail = sorted.split_off(end);
    let mut page = sorted.split_off(start);
    let ghost pg = page@;
    assert(pg =~= all.subrange(start as int, end as int));
    let mut out: Vec<TaskPushNotificationConfig> = Vec::new();
    let mut i: usize = 0;
    while page.len() > 0
        invariant
            start <= end <= all.len(),
            i + page@.len() == end - start,
            page@ == pg.subrange(i as int, pg.len() as int),
            pg == all.subrange(start as int, end as int),
            out@.len() == i,
            forall|j: int| 0 <= j < i ==> #[trigger] bound_to(out@[j], task_id@, *tenant, pg[j]),
        decreases page@.len(),
    {
        let c = page.remove(0);
        let entry = TaskPushNotificationConfig::bind(copy_string(task_id), c, copy_opt(tenant));
        let ghost prev = out@;
        out.push(entry);
        assert(bound_to(out@[i as int], task_id@, *tenant, pg[i as int]));
        assert forall|j: int| 0 <= j < i + 1 implies #[trigger] bound_to(out@[j], task_id@, *tenant, pg[j]) by {
            if j < i {
                assert(out@[j] == prev[j]);
            }
        }
        i += 1;
        assert(page@ =~= pg.subrange(i as int, pg.len() as int));
    }
    assert forall|j: int| 0 <= j < end - start implies #[trigger] bound_to(out@[j], task_id@, *tenant, all[start + j]) by {
        assert(bound_to(out@[j], task_id@, *tenant, pg[j]));
        assert(pg[j] == all[start + j]);
    }
    let next_page_token = if end < len {
        Some(decimal_string(end))
    } else {
        None
    };
    ListTaskPushNotificationConfigsResponse { configs: out, next_page_token }
}

/// Paging goes on where it stopped: the page asked for with the token a listing returned
/// starts right after that listing's page, whatever the page size.
pub proof fn lemma_next_page_continues(
    configs: Seq<PushNotificationConfig>,
    size: Option<i32>,
    token: Option<String>,
    next: String,
)
    requires
        ({
            let len = spec_sort_by_id(configs).len();
            let start = spec_page_start(token, len);
            let end = spec_page_end(start, spec_page_size(size), len);
            end < len && next@ == ascii_chars(spec_decimal(end))
        }),
        configs.len() <= usize::MAX,
    ensures
        ({
            let len = spec_sort_by_id(configs).len();
            let start = spec_page_start(token, len);
            spec_page_start(Some(next), len) == spec_page_end(start, spec_page_size(size), len)
        }),
{
    let len = spec_sort_by_id(configs).len();
    let start = spec_page_start(token, len);
    let end = spec_page_end(start, spec_page_size(size), len);
    crate::text::lemma_decimal_value(end);
    let d = spec_decimal(end);
    assert forall|i: int| 0 <= i < d.len() implies #[trigger] d[i] < 128u8 by {
        assert(crate::text::is_digit(d[i]));
    }
    lemma_ascii_encode(d);
    assert(end <= usize::MAX) by {
        lemma_sort_len(configs);
    }
    lemma_parse_decimal(end as usize);
}

/// The configs are in order of their ids.
pub open spec fn sorted_by_id(s: Seq<PushNotificationConfig>) -> bool {
    forall|i: int, j: int| #![trigger s[i], s[j]] 0 <= i < j < s.len() ==> id_le(s[i].id, s[j].id)
}

proof fn lemma_chars_le_refl(a: Seq<char>)
    ensures
        chars_le(a, a),
    decreases a.len(),
{
    if a.len() > 0 {
        lemma_chars_le_refl(a.drop_first());
    }
}

proof fn lemma_chars_le_total(a: Seq<char>, b: Seq<char>)
    ensures
        chars_le(a, b) || chars_le(b, a),
    decreases a.len(),
{
    if a.len() > 0 && b.len() > 0 && (a[0] as u32) == (b[0] as u32) {
        lemma_chars_le_total(a.drop_first(), b.drop_first());
    }
}

proof fn lemma_chars_le_trans(a: Seq<char>, b: Seq<char>, c: Seq<char>)
    requires
        chars_le(a, b),
        chars_le(b, c),
    ensures
        chars_le(a, c),
    decreases a.len(),
{
    if a.len() > 0 && b.len() > 0 && c.len() > 0 && (a[0] as u32) == (b[0] as u32) && (b[0] as u32)
        == (c[0] as u32) {
        lemma_chars_le_trans(a.drop_first(), b.drop_first(), c.drop_first());
    }
}

proof fn lemma_id_le_order(a: Option<String>, b: Option<String>, c: Option<String>)
    ensures
        id_le(a, a),
        id_le(a, b) || id_le(b, a),
        id_le(a, b) && id_le(b, c) ==> id_le(a, c),
{
    match (a, b, c) {
        (Some(x), Some(y), Some(z)) => {
            lemma_chars_le_refl(x@);
            lemma_chars_le_total(x@, y@);
            if chars_le(x@, y@) && chars_le(y@, z@) {
                lemma_chars_le_trans(x@, y@, z@);
            }
        },
        (Some(x), Some(y), None) => {
            lemma_chars_le_refl(x@);
            lemma_chars_le_total(x@, y@);
        },
        (Some(x), None, _) => {
            lemma_chars_le_refl(x@);
        },
        _ => {},
    }
}

proof fn lemma_insert_bounded(s: Seq<PushNotificationConfig>, x: PushNotificationConfig, y: Option<String>)
    requires
        forall|i: int| 0 <= i < s.len() ==> id_le(#[trigger] s[i].id, y),
        id_le(x.id, y),
    ensures
        forall|i: int| 0 <= i < spec_insert_by_id(s, x).len() ==> id_le(#[trigger] spec_insert_by_id(s, x)[i].id, y),
    decreases s.len(),
{
    lemma_insert_len(s, x);
    if s.len() > 0 && id_le(x.id, s.last().id) && !id_le(s.last().id, x.id) {
        let d = s.drop_last();
        lemma_insert_bounded(d, x, y);
        lemma_insert_len(d, x);
        let r = spec_insert_by_id(d, x);
        assert forall|i: int| 0 <= i < spec_insert_by_id(s, x).len() implies id_le(#[trigger] spec_insert_by_id(s, x)[i].id, y) by {
            if i < r.len() {
                assert(spec_insert_by_id(s, x)[i] == r[i]);
            } else {
                assert(spec_insert_by_id(s, x)[i] == s[s.len() - 1]);
            }
        }
    } else if s.len() > 0 {
        assert forall|i: int| 0 <= i < spec_insert_by_id(s, x).len() implies id_le(#[trigger] spec_insert_by_id(s, x)[i].id, y) by {
            if i < s.len() {
                assert(spec_insert_by_id(s, x)[i] == s[i]);
            }
        }
    }
}

proof fn lemma_insert_sorted(s: Seq<PushNotificationConfig>, x: PushNotificationConfig)
    requires
        sorted_by_id(s),
    ensures
        sorted_by_id(spec_insert_by_id(s, x)),
        spec_insert_by_id(s, x).to_multiset() =~= s.to_multiset().insert(x),
    decreases s.len(),
{
    broadcast use vstd::seq_lib::group_to_multiset_ensures;
    if s.len() == 0 {
        assert(seq![x] =~= Seq::<PushNotificationConfig>::empty().push(x));
        assert(s =~= Seq::<PushNotificationConfig>::empty());
    } else {
        let last = s.last();
        let d = s.drop_last();
        assert(s =~= d.push(last));
        assert(sorted_by_id(d)) by {
            assert forall|i: int, j: int| 0 <= i < j < d.len() implies id_le(#[trigger] d[i].id, #[trigger] d[j].id) by {
                assert(d[i] == s[i] && d[j] == s[j]);
            }
        }
        if id_le(x.id, last.id) && !id_le(last.id, x.id) {
            lemma_insert_sorted(d, x);
            let r = spec_insert_by_id(d, x);
            assert forall|i: int| 0 <= i < d.len() implies id_le(#[trigger] d[i].id, last.id) by {
                assert(d[i] == s[i] && last == s[s.len() - 1]);
            }
            lemma_insert_bounded(d, x, last.id);
            let t = r.push(last);
            assert(spec_insert_by_id(s, x) == t);
            assert forall|i: int, j: int| 0 <= i < j < t.len() implies id_le(#[trigger] t[i].id, #[trigger] t[j].id) by {
                if j < r.len() {
                    assert(t[i] == r[i] && t[j] == r[j]);
                } else {
                    assert(t[i] == r[i] && t[j] == last);
                }
            }
            assert(t.to_multiset() =~= r.to_multiset().insert(last));
            assert(s.to_multiset() =~= d.to_multiset().insert(last));
        } else {
            lemma_id_le_order(last.id, x.id, last.id);
            let t = s.push(x);
            assert(spec_insert_by_id(s, x) == t);
            assert forall|i: int| 0 <= i < s.len() implies id_le(#[trigger] s[i].id, x.id) by {
                lemma_id_le_order(s[i].id, last.id, x.id);
                if i < s.len() - 1 {
                    assert(id_le(s[i].id, s[s.len() - 1].id));
                }
            }
            assert forall|i: int, j: int| 0 <= i < j < t.len() implies id_le(#[trigger] t[i].id, #[trigger] t[j].id) by {
                if j < s.len() {
                    assert(t[i] == s[i] && t[j] == s[j]);
                } else {
                    assert(t[i] == s[i] && t[j] == x);
                }
            }
        }
    }
}

/// The order a listing pages in: the configs sorted by id, none lost and none added.
pub proof fn lemma_sort_by_id_sorts(s: Seq<PushNotificationConfig>)
    ensures
        sorted_by_id(spec_sort_by_id(s)),
        spec_sort_by_id(s).to_multiset() =~= s.to_multiset(),
    decreases s.len(),
{
    broadcast use vstd::seq_lib::group_to_multiset_ensures;
    if s.len() > 0 {
        let d = s.drop_last();
        lemma_sort_by_id_sorts(d);
        lemma_insert_sorted(spec_sort_by_id(d), s.last());
        assert(s =~= d.push(s.last()));
        assert(s.to_multiset() =~= d.to_multiset().insert(s.last()));
    }
}

/// The configs whose id equals `k` in the order of ids.
pub open spec fn id_class(k: Option<String>) -> spec_fn(PushNotificationConfig) -> bool {
    |c: PushNotificationConfig| id_le(c.id, k) && id_le(k, c.id)
}

proof fn lemma_insert_filter(s: Seq<PushNotificationConfig>, x: PushNotificationConfig, k: Option<String>)
    ensures
        spec_insert_by_id(s, x).filter(id_class(k)) == if id_class(k)(x) {
            s.filter(id_class(k)).push(x)
        } else {
            s.filter(id_class(k))
        },
    decreases s.len(),
{
    broadcast use Seq::lemma_filter_push;
    let p = id_class(k);
    if s.len() == 0 {
        assert(seq![x] =~= s.push(x));
    } else {
        let last = s.last();
        let d = s.drop_last();
        assert(s =~= d.push(last));
        if id_le(x.id, last.id) && !id_le(last.id, x.id) {
            lemma_insert_filter(d, x, k);
            if p(x) && p(last) {
                lemma_id_le_order(last.id, k, x.id);
                assert(false);
            }
        }
    }
}

/// Configs with equal ids keep their order: among the configs with any one id, the sorted
/// list holds them in the order they were given (the sort is stable).
pub proof fn lemma_sort_by_id_stable(s: Seq<PushNotificationConfig>, k: Option<String>)
    ensures
        spec_sort_by_id(s).filter(id_class(k)) == s.filter(id_class(k)),
    decreases s.len(),
{
    broadcast use Seq::lemma_filter_push;
    if s.len() == 0 {
    } else {
        let d = s.drop_last();
        lemma_sort_by_id_stable(d, k);
        lemma_insert_filter(spec_sort_by_id(d), s.last(), k);
        assert(s =~= d.push(s.last()));
    }
}

/// UTF-8 of ASCII characters is their bytes.
proof fn lemma_ascii_encode(b: Seq<u8>)
    requires
        forall|i: int| 0 <= i < b.len() ==> #[trigger] b[i] < 128u8,
    ensures
        vstd::utf8::encode_utf8(ascii_chars(b)) == b,
{
    let c = ascii_chars(b);
    assert(vstd::utf8::is_ascii_chars(c)) by {
        assert forall|i: int| 0 <= i < c.len() implies '\0' <= #[trigger] c[i] <= '\u{7f}' by {
            assert(b[i] < 128u8);
            assert(c[i] == b[i] as char);
        }
    }
    vstd::utf8::is_ascii_chars_encode_utf8(c);
    assert forall|i: int| 0 <= i < b.len() implies vstd::utf8::encode_utf8(c)[i] == b[i] by {
        assert(c[i] as u8 == vstd::utf8::encode_utf8(c)[i]);
        assert(c[i] == b[i] as char);
    }
    assert(vstd::utf8::encode_utf8(c) =~= b);
}

proof fn lemma_sort_len(s: Seq<PushNotificationConfig>)
    ensures
        spec_sort_by_id(s).len() == s.len(),
    decreases s.len(),
{
    if s.len() > 0 {
        lemma_sort_len(s.drop_last());
        lemma_insert_len(spec_sort_by_id(s.drop_last()), s.last());
    }
}

} // verus!
